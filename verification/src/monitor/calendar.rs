//! Civil (proleptic Gregorian, UTC) dates from Unix time, for file names.
use vstd::prelude::*;

use crate::text::{dec_padded, push_decimal_padded, push_str};

verus! {

/// Days from 0000-03-01 to 1970-01-01.
pub const EPOCH_SHIFT: u64 = 719_468;

/// Days in a 400-year era.
pub const DAYS_PER_ERA: u64 = 146_097;

/// Year of an era (0..=399) for a day of the era (0..=146096).
pub open spec fn year_of_era(doe: int) -> int {
    (doe - doe / 1460 + doe / 36524 - doe / 146096) / 365
}

/// Day of the March-based year for a day of the era.
pub open spec fn day_of_year(doe: int) -> int {
    let yoe = year_of_era(doe);
    doe - (365 * yoe + yoe / 4 - yoe / 100)
}

/// The (year, month, day) of `days` days after 1970-01-01: the era-based
/// civil-from-days computation on a calendar that starts each year on
/// March 1st.
pub open spec fn civil_from_days(days: nat) -> (int, int, int) {
    let z = days + EPOCH_SHIFT;
    let era = z / DAYS_PER_ERA as int;
    let doe = z - era * DAYS_PER_ERA;
    let yoe = year_of_era(doe);
    let y = yoe + era * 400;
    let doy = day_of_year(doe);
    let mp = (5 * doy + 2) / 153;
    let d = doy - (153 * mp + 2) / 5 + 1;
    let m = if mp < 10 { mp + 3 } else { mp - 9 };
    (if m <= 2 { y + 1 } else { y }, m, d)
}

/// Within an era the year index and the day of the year stay in range.
proof fn lemma_era_bounds(doe: u32)
    requires
        doe < 146097,
    ensures
        0 <= year_of_era(doe as int) <= 399,
        0 <= day_of_year(doe as int) <= 365,
{
    assert({
        let yoe = (doe - doe / 1460 + doe / 36524 - doe / 146096) / 365;
        &&& 0 <= yoe <= 399
        &&& 365 * yoe + yoe / 4 - yoe / 100 <= doe
        &&& doe - (365 * yoe + yoe / 4 - yoe / 100) <= 365
    }) by (bit_vector)
        requires
            doe < 146097,
    ;
}

/// Month and day bounds of the March-based month computation.
proof fn lemma_month_day(doy: int)
    requires
        0 <= doy <= 365,
    ensures
        0 <= (5 * doy + 2) / 153 <= 11,
        1 <= doy - (153 * ((5 * doy + 2) / 153) + 2) / 5 + 1 <= 31,
{
    let mp = (5 * doy + 2) / 153;
    assert(0 <= mp <= 11);
    assert(153 * mp <= 5 * doy + 2);
    assert(5 * doy + 2 < 153 * mp + 153);
}

/// Convert days since the Unix epoch to (year, month, day).
pub fn days_to_ymd(days: u64) -> (r: (u64, u64, u64))
    requires
        days <= u64::MAX - EPOCH_SHIFT,
    ensures
        (r.0 as int, r.1 as int, r.2 as int) == civil_from_days(days as nat),
        1 <= r.1 <= 12,
        1 <= r.2 <= 31,
{
    let z = days + EPOCH_SHIFT;
    let era = z / DAYS_PER_ERA;
    let doe = z - era * DAYS_PER_ERA;
    assert(doe < 146097);
    proof {
        lemma_era_bounds(doe as u32);
    }
    let yoe = (doe - doe / 1460 + doe / 36524 - doe / 146096) / 365;
    assert(yoe as int == year_of_era(doe as int));
    let y = yoe + era * 400;
    let doy = doe - (365 * yoe + yoe / 4 - yoe / 100);
    assert(doy as int == day_of_year(doe as int));
    proof {
        lemma_month_day(doy as int);
    }
    let mp = (5 * doy + 2) / 153;
    let d = doy - (153 * mp + 2) / 5 + 1;
    let m = if mp < 10 { mp + 3 } else { mp - 9 };
    let y = if m <= 2 { y + 1 } else { y };
    (y, m, d)
}

/// Days from 1970-01-01 to the civil date `(y, m, d)`.
pub open spec fn days_from_civil(y: int, m: int, d: int) -> int {
    let yy = if m <= 2 { y - 1 } else { y };
    let era = yy / 400;
    let yoe = yy - era * 400;
    let mp = if m > 2 { m - 3 } else { m + 9 };
    let doy = (153 * mp + 2) / 5 + d - 1;
    let doe = yoe * 365 + yoe / 4 - yoe / 100 + doy;
    era * 146097 + doe - EPOCH_SHIFT
}

/// Every day count names a distinct civil date: converting the date back
/// to a day count gives the day count.
pub proof fn law_civil_round_trip(days: nat)
    ensures
        ({
            let (y, m, d) = civil_from_days(days);
            days_from_civil(y, m, d) == days
        }),
{
    let z = days + EPOCH_SHIFT;
    let era = z / DAYS_PER_ERA as int;
    let doe = z - era * DAYS_PER_ERA;
    assert(0 <= doe < 146097);
    assert(doe <= u32::MAX);
    lemma_era_bounds(doe as u32);
    let yoe = year_of_era(doe);
    let doy = day_of_year(doe);
    lemma_month_day(doy);
    let y = yoe + era * 400;
    assert(era >= 0);
    assert((yoe + era * 400) / 400 == era) by (nonlinear_arith)
        requires
            0 <= yoe < 400,
            era >= 0,
    ;
}

/// Gregorian leap year.
pub open spec fn is_leap(y: int) -> bool {
    y % 4 == 0 && (y % 100 != 0 || y % 400 == 0)
}

/// Days in month `m` of year `y`.
pub open spec fn days_in_month(y: int, m: int) -> int {
    if m == 2 {
        if is_leap(y) { 29 } else { 28 }
    } else if m == 4 || m == 6 || m == 9 || m == 11 {
        30
    } else {
        31
    }
}

/// Month lengths of the March-based month computation.
proof fn lemma_month_length(doy: u32)
    requires
        doy <= 365,
    ensures
        ({
            let mp = (5 * doy + 2) / 153;
            let d = doy - (153 * mp + 2) / 5 + 1;
            &&& (mp == 11 && doy < 365 ==> d <= 28)
            &&& (mp == 11 ==> d <= 29)
            &&& (doy == 365 ==> mp == 11)
            &&& (mp == 1 || mp == 3 || mp == 6 || mp == 8 ==> d <= 30)
        }),
{
    assert({
        let mp = (5 * doy + 2) / 153;
        let d = doy - (153 * mp + 2) / 5 + 1;
        &&& (mp == 11 && doy < 365 ==> d <= 28)
        &&& (mp == 11 ==> d <= 29)
        &&& (doy == 365 ==> mp == 11)
        &&& (mp == 1 || mp == 3 || mp == 6 || mp == 8 ==> d <= 30)
    }) by (bit_vector)
        requires
            doy <= 365,
    ;
}

/// The last day (day 365) of a March-based year exists only when the
/// following calendar year is a leap year; and the era's years from the
/// 1970s on.
proof fn lemma_era_leap(doe: u32)
    requires
        doe < 146097,
    ensures
        day_of_year(doe as int) == 365 ==> ({
            let y1 = year_of_era(doe as int) + 1;
            y1 % 4 == 0 && (y1 % 100 != 0 || y1 % 400 == 0)
        }),
        doe >= 135080 ==> year_of_era(doe as int) >= 370 || (year_of_era(doe as int) == 369 && day_of_year(
            doe as int,
        ) >= 306),
{
    assert({
        let yoe = (doe - doe / 1460 + doe / 36524 - doe / 146096) / 365;
        let doy = doe - (365 * yoe + yoe / 4 - yoe / 100);
        let y1 = yoe + 1;
        &&& (doy == 365 ==> y1 % 4 == 0 && (y1 % 100 != 0 || y1 % 400 == 0))
        &&& (doe >= 135080 ==> yoe >= 370 || (yoe == 369 && doy >= 306))
    }) by (bit_vector)
        requires
            doe < 146097,
    ;
}

/// Every day count gives a real date from 1970 on: the day lies within its
/// month's length under the Gregorian leap rule.
pub proof fn law_civil_date_valid(days: nat)
    ensures
        ({
            let (y, m, d) = civil_from_days(days);
            &&& y >= 1970
            &&& 1 <= m <= 12
            &&& 1 <= d <= days_in_month(y, m)
        }),
{
    let z = days + EPOCH_SHIFT;
    let era = z / DAYS_PER_ERA as int;
    let doe = z - era * DAYS_PER_ERA;
    assert(0 <= doe < 146097);
    lemma_era_bounds(doe as u32);
    lemma_era_leap(doe as u32);
    let yoe = year_of_era(doe);
    let doy = day_of_year(doe);
    lemma_month_day(doy);
    lemma_month_length(doy as u32);
    let y = yoe + era * 400;
    let (cy, m, d) = civil_from_days(days);
    assert(era >= 4);
    if m == 2 && d == 29 {
        assert(doy == 365);
        let y1 = yoe + 1;
        assert(cy == y1 + era * 400);
        assert(cy % 4 == y1 % 4 && cy % 100 == y1 % 100 && cy % 400 == y1 % 400) by (nonlinear_arith)
            requires
                cy == y1 + era * 400,
        ;
    }
    if era == 4 {
        assert(doe >= 135080);
    }
}

/// The calendar day after `(y, m, d)`.
pub open spec fn next_day(y: int, m: int, d: int) -> (int, int, int) {
    if d < days_in_month(y, m) {
        (y, m, d + 1)
    } else if m < 12 {
        (y, m + 1, 1)
    } else {
        (y + 1, 1, 1)
    }
}

/// First day (within its era) of the March-based year `y` of an era.
pub open spec fn year_start(y: int) -> int {
    365 * y + y / 4 - y / 100
}

/// The era's year index of a day is the year whose span holds that day.
proof fn lemma_year_span(doe: u32)
    requires
        doe < 146096,
    ensures
        year_start(year_of_era(doe as int)) <= doe < year_start(year_of_era(doe as int) + 1),
{
    assert({
        let y = (doe - doe / 1460 + doe / 36524 - doe / 146096) / 365;
        &&& 365 * y + y / 4 - y / 100 <= doe
        &&& doe < 365 * (y + 1) + (y + 1) / 4 - (y + 1) / 100
    }) by (bit_vector)
        requires
            doe < 146096,
    ;
}

/// Year starts grow with the year.
proof fn lemma_year_start_monotone(a: int, b: int)
    requires
        0 <= a < b,
    ensures
        year_start(a + 1) <= year_start(b),
{
    assert(b / 4 >= (a + 1) / 4) by (nonlinear_arith)
        requires
            a + 1 <= b,
            a >= 0,
    ;
    assert(b / 100 <= (a + 1) / 100 + (b - a - 1) / 100 + 1) by (nonlinear_arith)
        requires
            a + 1 <= b,
            a >= 0,
    ;
    assert((b - a - 1) / 100 <= b - a - 1) by (nonlinear_arith)
        requires
            a + 1 <= b,
    ;
}

/// From one day of an era to the next: the same March-based year one day
/// on, or day 0 of the next year after its last day.
proof fn lemma_next_doe(doe: u32)
    requires
        doe < 146096,
    ensures
        ({
            let y1 = year_of_era(doe as int);
            let y2 = year_of_era(doe as int + 1);
            let d1 = day_of_year(doe as int);
            let d2 = day_of_year(doe as int + 1);
            &&& (y2 == y1 && d2 == d1 + 1) || (y2 == y1 + 1 && d2 == 0)
            &&& (y2 == y1 + 1 ==> d1 == year_start(y1 + 1) - year_start(y1) - 1)
        }),
{
    let e: u32 = (doe + 1) as u32;
    lemma_year_span(doe);
    lemma_era_bounds(doe);
    let y1 = year_of_era(doe as int);
    if e < 146096 {
        lemma_year_span(e);
        lemma_era_bounds(e);
        let y2 = year_of_era(e as int);
        if y2 > y1 + 1 {
            lemma_year_start_monotone(y1 + 1, y2);
        }
        if y2 < y1 {
            lemma_year_start_monotone(y2, y1);
        }
    } else {
        assert(year_of_era(146095) == 399 && year_of_era(146096) == 399);
    }
}

/// Length of a month of the March-based year (March is 0, February 11).
pub open spec fn march_month_length(mp: int) -> int {
    if mp == 1 || mp == 3 || mp == 6 || mp == 8 {
        30
    } else {
        31
    }
}

/// From one day of a March-based year to the next: the same month one day
/// on, or the first of the next month after a month's last day.
proof fn lemma_next_doy(doy: u32)
    requires
        doy <= 364,
    ensures
        ({
            let mp = (5 * doy + 2) / 153;
            let d = doy - (153 * mp + 2) / 5 + 1;
            let mp2 = (5 * (doy + 1) + 2) / 153;
            let d2 = (doy + 1) - (153 * mp2 + 2) / 5 + 1;
            &&& (mp2 == mp && d2 == d + 1) || (mp2 == mp + 1 && d2 == 1)
            &&& (mp2 == mp + 1 ==> mp < 11 && d == march_month_length(mp as int))
            &&& (mp2 == mp && mp < 11 ==> d < march_month_length(mp as int))
            &&& (mp2 == mp && mp == 11 ==> d <= 28)
            &&& (mp == 11 && doy == 364 ==> d == 28)
        }),
{
    let e: u32 = (doy + 1) as u32;
    assert({
        let mp = (5 * doy + 2) / 153;
        let d = doy - (153 * mp + 2) / 5 + 1;
        let mp2 = (5 * e + 2) / 153;
        let d2 = e - (153 * mp2 + 2) / 5 + 1;
        &&& (mp2 == mp && d2 == d + 1) || (mp2 == mp + 1 && d2 == 1)
        &&& (mp2 == mp + 1 ==> mp < 11 && d == (if mp == 1 || mp == 3 || mp == 6 || mp == 8 { 30u32 } else { 31u32 }))
        &&& (mp2 == mp && mp < 11 ==> d < (if mp == 1 || mp == 3 || mp == 6 || mp == 8 { 30u32 } else { 31u32 }))
        &&& (mp2 == mp && mp == 11 ==> d <= 28)
        &&& (mp == 11 && doy == 364 ==> d == 28)
    }) by (bit_vector)
        requires
            doy <= 364,
            e == doy + 1,
    ;
}

/// Leap years repeat every 400 years.
proof fn lemma_leap_shift(n: int, k: int)
    ensures
        is_leap(n + k * 400) == is_leap(n),
{
    assert((n + k * 400) % 4 == n % 4 && (n + k * 400) % 100 == n % 100 && (n + k * 400) % 400
        == n % 400) by (nonlinear_arith);
}

/// A March-based year `n - 1` of an era has 366 days exactly when the
/// calendar year `n` (which holds its February) is a leap year.
proof fn lemma_year_length(n: u32)
    requires
        1 <= n <= 399,
    ensures
        year_start(n as int) - year_start(n - 1) == if is_leap(n as int) {
            366int
        } else {
            365int
        },
{
    assert({
        let a = 365 * n + n / 4 - n / 100;
        let b = 365 * (n - 1) + (n - 1) / 4 - (n - 1) / 100;
        &&& (n % 4 == 0 && (n % 100 != 0 || n % 400 == 0)) ==> a - b == 366
        &&& !(n % 4 == 0 && (n % 100 != 0 || n % 400 == 0)) ==> a - b == 365
    }) by (bit_vector)
        requires
            1 <= n <= 399,
    ;
}

/// Consecutive day counts name consecutive calendar days: the date of
/// `days + 1` is the day after the date of `days`.
#[verifier::rlimit(50)]
pub proof fn law_next_day(days: nat)
    ensures
        ({
            let (y, m, d) = civil_from_days(days);
            civil_from_days(days + 1) == next_day(y, m, d)
        }),
{
    let z = days + EPOCH_SHIFT;
    let era = z / DAYS_PER_ERA as int;
    let doe = z - era * DAYS_PER_ERA;
    assert(0 <= doe < 146097);
    assert(era >= 0);
    lemma_era_bounds(doe as u32);
    lemma_era_leap(doe as u32);
    let y1 = year_of_era(doe);
    let d1 = day_of_year(doe);
    lemma_month_day(d1);
    lemma_month_length(d1 as u32);
    law_civil_date_valid(days);
    if doe < 146096 {
        assert((z + 1) / 146097 == era) by (nonlinear_arith)
            requires
                z == era * 146097 + doe,
                0 <= doe,
                doe + 1 < 146097,
        ;
        lemma_next_doe(doe as u32);
        lemma_era_bounds((doe + 1) as u32);
        lemma_era_leap((doe + 1) as u32);
        let y2 = year_of_era(doe + 1);
        let d2 = day_of_year(doe + 1);
        lemma_month_day(d2);
        if y2 == y1 {
            lemma_next_doy(d1 as u32);
            lemma_leap_shift(y1 + 1, era);
        } else {
            lemma_year_length((y1 + 1) as u32);
            lemma_leap_shift(y1 + 1, era);
        }
    } else {
        assert((z + 1) / 146097 == era + 1) by (nonlinear_arith)
            requires
                z == era * 146097 + doe,
                doe == 146096,
        ;
        assert(year_of_era(146096) == 399 && day_of_year(146096) == 365);
        assert(year_of_era(0) == 0 && day_of_year(0) == 0);
        lemma_leap_shift(400, era);
    }
}

/// Time stamp for a file name, `YYYYMMDD_hhmmss_mmm` in UTC, for `ms`
/// milliseconds after the Unix epoch.
pub open spec fn timestamp_text(ms: nat) -> Seq<char> {
    let secs = ms / 1000;
    let millis = ms % 1000;
    let days = secs / 86400;
    let tod = secs % 86400;
    let (y, mo, d) = civil_from_days(days);
    dec_padded(y as nat, 4) + dec_padded(mo as nat, 2) + dec_padded(d as nat, 2) + "_"@ + dec_padded(
        tod / 3600,
        2,
    ) + dec_padded((tod % 3600) / 60, 2) + dec_padded(tod % 60, 2) + "_"@ + dec_padded(millis, 3)
}

/// A file-name-safe time stamp such as `20260329_173202_123` for a time
/// given in milliseconds since the Unix epoch.
pub fn chrono_filename(epoch_ms: u64) -> (s: String)
    ensures
        s@ == timestamp_text(epoch_ms as nat),
{
    let secs = epoch_ms / 1000;
    let millis = epoch_ms % 1000;
    let days = secs / 86400;
    let tod = secs % 86400;
    let hours = tod / 3600;
    let minutes = (tod % 3600) / 60;
    let seconds = tod % 60;
    let (year, month, day) = days_to_ymd(days);
    let mut s = String::new();
    push_decimal_padded(&mut s, year, 4);
    push_decimal_padded(&mut s, month, 2);
    push_decimal_padded(&mut s, day, 2);
    push_str(&mut s, "_");
    push_decimal_padded(&mut s, hours, 2);
    push_decimal_padded(&mut s, minutes, 2);
    push_decimal_padded(&mut s, seconds, 2);
    push_str(&mut s, "_");
    push_decimal_padded(&mut s, millis, 3);
    assert(s@ =~= timestamp_text(epoch_ms as nat));
    s
}

} // verus!
