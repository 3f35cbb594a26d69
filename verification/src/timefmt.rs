//! RFC 3339 rendering of Unix timestamps (UTC, whole seconds).

use vstd::prelude::*;
use crate::text::{
    zero_padded, append_zero_padded, text_before, pow10, lemma_before_then_any,
    lemma_prefix_keeps_before, lemma_zero_padded_order,
};

verus! {

/// Gregorian leap-year rule.
pub open spec fn is_leap_year(y: int) -> bool {
    (y % 4 == 0 && y % 100 != 0) || y % 400 == 0
}

/// Number of days in year `y`.
pub open spec fn days_in_year(y: int) -> int {
    if is_leap_year(y) { 366 } else { 365 }
}

/// Days from 1970-01-01 to January 1st of year `y` (for `y >= 1970`).
pub open spec fn days_before_year(y: int) -> int
    decreases y - 1970,
{
    if y <= 1970 {
        0
    } else {
        days_before_year(y - 1) + days_in_year(y - 1)
    }
}

/// Length of month `m` (1-based).
pub open spec fn month_length(m: int, leap: bool) -> int {
    if m == 2 {
        if leap { 29 } else { 28 }
    } else if m == 4 || m == 6 || m == 9 || m == 11 {
        30
    } else {
        31
    }
}

/// Days of the year before the first day of month `m` (1-based).
pub open spec fn days_before_month(m: int, leap: bool) -> int
    decreases m,
{
    if m <= 1 {
        0
    } else {
        days_before_month(m - 1, leap) + month_length(m - 1, leap)
    }
}

/// The year holding day number `days` (days since 1970-01-01).
pub open spec fn year_of_day(days: int) -> int {
    choose|y: int| 1970 <= y && #[trigger] days_before_year(y) <= days < days_before_year(y + 1)
}

/// The month (1-based) holding day-of-year `r`.
pub open spec fn month_of_day(r: int, leap: bool) -> int {
    choose|m: int| 1 <= m <= 12 && #[trigger] days_before_month(m, leap) <= r < days_before_month(m + 1, leap)
}

/// The `YYYY-MM-DDTHH:MM:SSZ` text of a non-negative Unix timestamp.
pub open spec fn rfc3339_text(timestamp: int) -> Seq<char> {
    let days = timestamp / 86400;
    let rem = timestamp % 86400;
    let year = year_of_day(days);
    let doy = days - days_before_year(year);
    let leap = is_leap_year(year);
    let month = month_of_day(doy, leap);
    let day = doy - days_before_month(month, leap) + 1;
    zero_padded(year as nat, 4) + "-"@ + zero_padded(month as nat, 2) + "-"@ + zero_padded(
        day as nat,
        2,
    ) + "T"@ + zero_padded((rem / 3600) as nat, 2) + ":"@ + zero_padded(
        ((rem % 3600) / 60) as nat,
        2,
    ) + ":"@ + zero_padded((rem % 60) as nat, 2) + "Z"@
}

/// Largest timestamp whose year still fits a 32-bit signed year counter:
/// the last second of year 2147483647.
pub const MAX_RFC3339_TIMESTAMP: i64 = 67767976233532799;

/// Leap days among years `1..=n`.
pub open spec fn leap_count(n: int) -> int {
    n / 4 - n / 100 + n / 400
}

#[verifier::spinoff_prover]
proof fn lemma_leap_count_step(n: int)
    requires
        n >= 1,
    ensures
        leap_count(n) - leap_count(n - 1) == (if is_leap_year(n) { 1int } else { 0int }),
{
}

/// Closed form of [`days_before_year`].
pub proof fn lemma_days_before_year_closed(y: int)
    requires
        y >= 1970,
    ensures
        days_before_year(y) == 365 * (y - 1970) + leap_count(y - 1) - leap_count(1969),
    decreases y - 1970,
{
    if y > 1970 {
        lemma_days_before_year_closed(y - 1);
        lemma_leap_count_step(y - 1);
    }
}

/// Each year adds at least 365 days.
pub proof fn lemma_days_before_year_grows(y1: int, y2: int)
    requires
        1970 <= y1 <= y2,
    ensures
        days_before_year(y2) >= days_before_year(y1) + 365 * (y2 - y1),
    decreases y2 - y1,
{
    if y1 < y2 {
        lemma_days_before_year_grows(y1, y2 - 1);
    }
}

/// Each month adds at least 28 days.
proof fn lemma_days_before_month_grows(m1: int, m2: int, leap: bool)
    requires
        1 <= m1 <= m2,
    ensures
        days_before_month(m2, leap) >= days_before_month(m1, leap) + 28 * (m2 - m1),
    decreases m2 - m1,
{
    if m1 < m2 {
        lemma_days_before_month_grows(m1, m2 - 1, leap);
    }
}

/// A day number lies in exactly one year.
proof fn lemma_year_of_day_unique(days: int, y: int)
    requires
        1970 <= y,
        days_before_year(y) <= days < days_before_year(y + 1),
    ensures
        year_of_day(days) == y,
{
    let z = year_of_day(days);
    assert(1970 <= z && days_before_year(z) <= days < days_before_year(z + 1));
    if z < y {
        lemma_days_before_year_grows(z + 1, y);
    } else if z > y {
        lemma_days_before_year_grows(y + 1, z);
    }
}

/// A day of the year lies in exactly one month.
proof fn lemma_month_of_day_unique(r: int, leap: bool, m: int)
    requires
        1 <= m <= 12,
        days_before_month(m, leap) <= r < days_before_month(m + 1, leap),
    ensures
        month_of_day(r, leap) == m,
{
    let z = month_of_day(r, leap);
    assert(1 <= z <= 12 && days_before_month(z, leap) <= r < days_before_month(z + 1, leap));
    if z < m {
        lemma_days_before_month_grows(z + 1, m, leap);
    } else if z > m {
        lemma_days_before_month_grows(m + 1, z, leap);
    }
}

proof fn lemma_days_before_month_13(leap: bool)
    ensures
        days_before_month(13, leap) == (if leap { 366int } else { 365int }),
{
    reveal_with_fuel(days_before_month, 13);
}

fn is_leap(y: u64) -> (res: bool)
    ensures
        res == is_leap_year(y as int),
{
    (y % 4 == 0 && y % 100 != 0) || y % 400 == 0
}

fn month_len(m: u64, leap: bool) -> (res: u64)
    ensures
        res == month_length(m as int, leap),
{
    if m == 2 {
        if leap { 29 } else { 28 }
    } else if m == 4 || m == 6 || m == 9 || m == 11 {
        30
    } else {
        31
    }
}

/// Renders `timestamp` (seconds since the Unix epoch) as `YYYY-MM-DDTHH:MM:SSZ`.
pub fn format_timestamp_rfc3339(timestamp: i64) -> (res: String)
    requires
        0 <= timestamp <= MAX_RFC3339_TIMESTAMP,
    ensures
        res@ == rfc3339_text(timestamp as int),
{
    let total_secs = timestamp as u64;
    let days = total_secs / 86400;
    let rem_secs = total_secs % 86400;
    let hours = rem_secs / 3600;
    let mins = (rem_secs % 3600) / 60;
    let secs = rem_secs % 60;

    proof {
        lemma_days_before_year_closed(2147483648);
    }
    let mut year: u64 = 1970;
    let mut d: u64 = days;
    loop
        invariant
            1970 <= year,
            days == days_before_year(year as int) + d,
            days < days_before_year(2147483648),
        ensures
            1970 <= year,
            days == days_before_year(year as int) + d,
            d < days_in_year(year as int),
            year < 2147483648,
        decreases d,
    {
        proof {
            if year >= 2147483648 {
                lemma_days_before_year_grows(2147483648, year as int);
            }
        }
        let days_in = if is_leap(year) { 366 } else { 365 };
        if d < days_in {
            break;
        }
        d = d - days_in;
        year = year + 1;
    }
    proof {
        lemma_year_of_day_unique(days as int, year as int);
    }

    let leap = is_leap(year);
    let doy = d;
    let mut month: u64 = 1;
    proof {
        lemma_days_before_month_13(leap);
    }
    loop
        invariant
            1 <= month <= 12,
            doy == days_before_month(month as int, leap) + d,
            doy < days_before_month(13, leap),
        ensures
            1 <= month <= 12,
            doy == days_before_month(month as int, leap) + d,
            d < month_length(month as int, leap),
        decreases 12 - month,
    {
        let dim = month_len(month, leap);
        if d < dim {
            break;
        }
        proof {
            if month == 12 {
                assert(days_before_month(13, leap) == days_before_month(12, leap) + month_length(12, leap));
            }
        }
        d = d - dim;
        month = month + 1;
    }
    proof {
        lemma_month_of_day_unique(doy as int, leap, month as int);
    }
    let day = d + 1;

    let mut out = String::new();
    append_zero_padded(&mut out, year, 4);
    out.append("-");
    append_zero_padded(&mut out, month, 2);
    out.append("-");
    append_zero_padded(&mut out, day, 2);
    out.append("T");
    append_zero_padded(&mut out, hours, 2);
    out.append(":");
    append_zero_padded(&mut out, mins, 2);
    out.append(":");
    append_zero_padded(&mut out, secs, 2);
    out.append("Z");
    assert(out@ =~= rfc3339_text(timestamp as int));
    out
}


proof fn lemma_find_year(days: int, y: int)
    requires
        1970 <= y,
        days_before_year(y) <= days,
    ensures
        exists|z: int| 1970 <= z && #[trigger] days_before_year(z) <= days < days_before_year(z + 1),
    decreases days - days_before_year(y),
{
    if days >= days_before_year(y + 1) {
        lemma_find_year(days, y + 1);
    } else {
        assert(1970 <= y && days_before_year(y) <= days < days_before_year(y + 1));
    }
}

proof fn lemma_find_month(r: int, leap: bool, m: int)
    requires
        1 <= m <= 12,
        days_before_month(m, leap) <= r < days_before_month(13, leap),
    ensures
        exists|k: int| 1 <= k <= 12 && #[trigger] days_before_month(k, leap) <= r < days_before_month(k + 1, leap),
    decreases 13 - m,
{
    if r >= days_before_month(m + 1, leap) {
        lemma_find_month(r, leap, m + 1);
    } else {
        assert(1 <= m <= 12 && days_before_month(m, leap) <= r < days_before_month(m + 1, leap));
    }
}

/// Every timestamp that can be rendered denotes a real calendar date and
/// time of day: the month is 1 to 12, the day lies within that month of that
/// year, and hours, minutes and seconds are in range.
pub proof fn law_rfc3339_fields_valid(timestamp: int)
    requires
        0 <= timestamp <= MAX_RFC3339_TIMESTAMP,
    ensures
        ({
            let days = timestamp / 86400;
            let rem = timestamp % 86400;
            let year = year_of_day(days);
            let doy = days - days_before_year(year);
            let leap = is_leap_year(year);
            let month = month_of_day(doy, leap);
            let day = doy - days_before_month(month, leap) + 1;
            &&& 1970 <= year < 2147483648
            &&& 0 <= doy < days_in_year(year)
            &&& 1 <= month <= 12
            &&& 1 <= day <= month_length(month, leap)
            &&& rem / 3600 < 24
            &&& (rem % 3600) / 60 < 60
            &&& rem % 60 < 60
        }),
{
    let days = timestamp / 86400;
    lemma_find_year(days, 1970);
    let year = year_of_day(days);
    lemma_days_before_year_closed(2147483648);
    if year >= 2147483648 {
        lemma_days_before_year_grows(2147483648, year);
    }
    let doy = days - days_before_year(year);
    let leap = is_leap_year(year);
    lemma_days_before_month_13(leap);
    lemma_find_month(doy, leap, 1);
}

/// Last second of year 9999: up to here the year takes four digits.
pub open spec fn last_four_digit_year_second() -> int {
    253402300799
}

/// A separator, a value padded to `w` digits, and what follows.
pub open spec fn padded_field(sep: Seq<char>, n: nat, w: nat, rest: Seq<char>) -> Seq<char> {
    sep + zero_padded(n, w) + rest
}

/// A field decides the order of two texts where its values differ, and
/// what follows decides where they are equal.
proof fn lemma_padded_field_before(
    sep: Seq<char>,
    w: nat,
    n1: nat,
    n2: nat,
    r1: Seq<char>,
    r2: Seq<char>,
)
    requires
        w >= 1,
        n1 < pow10(w),
        n2 < pow10(w),
        n1 < n2 || (n1 == n2 && text_before(r1, r2)),
    ensures
        text_before(padded_field(sep, n1, w, r1), padded_field(sep, n2, w, r2)),
{
    let z1 = zero_padded(n1, w);
    let z2 = zero_padded(n2, w);
    if n1 < n2 {
        lemma_zero_padded_order(n1, n2, w);
        lemma_prefix_keeps_before(sep, z1, z2);
        lemma_before_then_any(sep + z1, sep + z2, r1, r2);
    } else {
        lemma_prefix_keeps_before(sep + z1, r1, r2);
    }
}

/// The calendar fields of a timestamp: year, month, day, hour, minute, second.
pub open spec fn rfc3339_fields(timestamp: int) -> (int, int, int, int, int, int) {
    let days = timestamp / 86400;
    let rem = timestamp % 86400;
    let year = year_of_day(days);
    let doy = days - days_before_year(year);
    let leap = is_leap_year(year);
    let month = month_of_day(doy, leap);
    let day = doy - days_before_month(month, leap) + 1;
    (year, month, day, rem / 3600, (rem % 3600) / 60, rem % 60)
}

/// The text of a timestamp, field by field.
proof fn lemma_rfc3339_text_fields(t: int)
    requires
        0 <= t <= MAX_RFC3339_TIMESTAMP,
    ensures
        ({
            let f = rfc3339_fields(t);
            rfc3339_text(t) == padded_field(
                Seq::empty(),
                f.0 as nat,
                4,
                padded_field(
                    "-"@,
                    f.1 as nat,
                    2,
                    padded_field(
                        "-"@,
                        f.2 as nat,
                        2,
                        padded_field(
                            "T"@,
                            f.3 as nat,
                            2,
                            padded_field(":"@, f.4 as nat, 2, padded_field(":"@, f.5 as nat, 2, "Z"@)),
                        ),
                    ),
                ),
            )
        }),
{
    let f = rfc3339_fields(t);
    let z0 = zero_padded(f.0 as nat, 4);
    let z1 = zero_padded(f.1 as nat, 2);
    let z2 = zero_padded(f.2 as nat, 2);
    let z3 = zero_padded(f.3 as nat, 2);
    let z4 = zero_padded(f.4 as nat, 2);
    let z5 = zero_padded(f.5 as nat, 2);
    let t5 = padded_field(":"@, f.5 as nat, 2, "Z"@);
    let t4 = padded_field(":"@, f.4 as nat, 2, t5);
    let t3 = padded_field("T"@, f.3 as nat, 2, t4);
    let t2 = padded_field("-"@, f.2 as nat, 2, t3);
    let t1 = padded_field("-"@, f.1 as nat, 2, t2);
    let l1 = z0 + "-"@ + z1;
    let l2 = l1 + "-"@ + z2;
    let l3 = l2 + "T"@ + z3;
    let l4 = l3 + ":"@ + z4;
    let l5 = l4 + ":"@ + z5;
    assert(rfc3339_text(t) == l5 + "Z"@);
    assert(l4 + t5 =~= l5 + "Z"@);
    assert(l3 + t4 =~= l4 + t5);
    assert(l2 + t3 =~= l3 + t4);
    assert(l1 + t2 =~= l2 + t3);
    assert(z0 + t1 =~= l1 + t2);
    assert(padded_field(Seq::empty(), f.0 as nat, 4, t1) =~= z0 + t1);
}

/// Later days fall in the same or a later year.
proof fn lemma_year_of_day_monotone(d1: int, d2: int)
    requires
        0 <= d1 <= d2,
    ensures
        year_of_day(d1) <= year_of_day(d2),
{
    lemma_find_year(d1, 1970);
    lemma_find_year(d2, 1970);
    let y1 = year_of_day(d1);
    let y2 = year_of_day(d2);
    if y1 > y2 {
        lemma_days_before_year_grows(y2 + 1, y1);
    }
}

/// Later days of a year fall in the same or a later month.
proof fn lemma_month_of_day_monotone(r1: int, r2: int, leap: bool)
    requires
        0 <= r1 <= r2 < days_before_month(13, leap),
    ensures
        month_of_day(r1, leap) <= month_of_day(r2, leap),
{
    lemma_find_month(r1, leap, 1);
    lemma_find_month(r2, leap, 1);
    let m1 = month_of_day(r1, leap);
    let m2 = month_of_day(r2, leap);
    if m1 > m2 {
        lemma_days_before_month_grows(m2 + 1, m1, leap);
    }
}

/// The fields of a later timestamp are later, compared field by field from the year down.
proof fn lemma_rfc3339_fields_increase(a: int, b: int)
    requires
        0 <= a < b <= MAX_RFC3339_TIMESTAMP,
    ensures
        ({
            let fa = rfc3339_fields(a);
            let fb = rfc3339_fields(b);
            ||| fa.0 < fb.0
            ||| fa.0 == fb.0 && fa.1 < fb.1
            ||| fa.0 == fb.0 && fa.1 == fb.1 && fa.2 < fb.2
            ||| fa.0 == fb.0 && fa.1 == fb.1 && fa.2 == fb.2 && fa.3 < fb.3
            ||| fa.0 == fb.0 && fa.1 == fb.1 && fa.2 == fb.2 && fa.3 == fb.3 && fa.4 < fb.4
            ||| fa.0 == fb.0 && fa.1 == fb.1 && fa.2 == fb.2 && fa.3 == fb.3 && fa.4 == fb.4 && fa.5 < fb.5
        }),
{
    let da = a / 86400;
    let db = b / 86400;
    let ra = a % 86400;
    let rb = b % 86400;
    law_rfc3339_fields_valid(a);
    law_rfc3339_fields_valid(b);
    if da == db {
        assert(ra < rb);
        assert(ra / 3600 <= rb / 3600);
        if ra / 3600 == rb / 3600 {
            assert(ra % 3600 < rb % 3600);
            assert((ra % 3600) / 60 <= (rb % 3600) / 60);
            if (ra % 3600) / 60 == (rb % 3600) / 60 {
                assert(ra % 60 < rb % 60);
            }
        }
    } else {
        assert(da < db);
        lemma_year_of_day_monotone(da, db);
        let y = year_of_day(da);
        if y == year_of_day(db) {
            let leap = is_leap_year(y);
            let ra_doy = da - days_before_year(y);
            let rb_doy = db - days_before_year(y);
            lemma_days_before_month_13(leap);
            lemma_month_of_day_monotone(ra_doy, rb_doy, leap);
        }
    }
}

/// Later instants render as later text: up to the last second of year 9999,
/// the text of an earlier timestamp sorts strictly before that of a later
/// one, so distinct timestamps never share a text.
pub proof fn law_rfc3339_order(a: int, b: int)
    requires
        0 <= a < b <= last_four_digit_year_second(),
    ensures
        text_before(rfc3339_text(a), rfc3339_text(b)),
{
    let fa = rfc3339_fields(a);
    let fb = rfc3339_fields(b);
    law_rfc3339_fields_valid(a);
    law_rfc3339_fields_valid(b);
    lemma_rfc3339_fields_increase(a, b);
    lemma_rfc3339_text_fields(a);
    lemma_rfc3339_text_fields(b);
    // The year has four digits up to year 9999.
    lemma_days_before_year_closed(10000);
    lemma_year_of_day_monotone(a / 86400, b / 86400);
    if fb.0 >= 10000 {
        lemma_days_before_year_grows(10000, fb.0);
    }
    assert(pow10(4) == 10000 && pow10(2) == 100) by {
        reveal_with_fuel(pow10, 5);
    }
    assert(fa.2 <= 31 && fb.2 <= 31);
    let s5a = padded_field(":"@, fa.5 as nat, 2, "Z"@);
    let s5b = padded_field(":"@, fb.5 as nat, 2, "Z"@);
    if fa.5 < fb.5 {
        lemma_padded_field_before(":"@, 2, fa.5 as nat, fb.5 as nat, "Z"@, "Z"@);
    }
    let s4a = padded_field(":"@, fa.4 as nat, 2, s5a);
    let s4b = padded_field(":"@, fb.4 as nat, 2, s5b);
    if fa.4 < fb.4 || (fa.4 == fb.4 && text_before(s5a, s5b)) {
        lemma_padded_field_before(":"@, 2, fa.4 as nat, fb.4 as nat, s5a, s5b);
    }
    let s3a = padded_field("T"@, fa.3 as nat, 2, s4a);
    let s3b = padded_field("T"@, fb.3 as nat, 2, s4b);
    if fa.3 < fb.3 || (fa.3 == fb.3 && text_before(s4a, s4b)) {
        lemma_padded_field_before("T"@, 2, fa.3 as nat, fb.3 as nat, s4a, s4b);
    }
    let s2a = padded_field("-"@, fa.2 as nat, 2, s3a);
    let s2b = padded_field("-"@, fb.2 as nat, 2, s3b);
    if fa.2 < fb.2 || (fa.2 == fb.2 && text_before(s3a, s3b)) {
        lemma_padded_field_before("-"@, 2, fa.2 as nat, fb.2 as nat, s3a, s3b);
    }
    let s1a = padded_field("-"@, fa.1 as nat, 2, s2a);
    let s1b = padded_field("-"@, fb.1 as nat, 2, s2b);
    if fa.1 < fb.1 || (fa.1 == fb.1 && text_before(s2a, s2b)) {
        lemma_padded_field_before("-"@, 2, fa.1 as nat, fb.1 as nat, s2a, s2b);
    }
    lemma_padded_field_before(Seq::empty(), 4, fa.0 as nat, fb.0 as nat, s1a, s1b);
}


/// Month lengths of the Gregorian calendar, January first: 31, 28 (29 in a
/// leap year), 31, 30, 31, 30, 31, 31, 30, 31, 30, 31.
pub proof fn law_month_lengths(m: int, leap: bool)
    requires
        1 <= m <= 12,
    ensures
        month_length(m, leap) == seq![31int, if leap { 29int } else { 28int }, 31, 30, 31, 30, 31, 31, 30, 31, 30, 31][m
            - 1],
{
}

/// Days of the year before the first of each month, January first: 0, 31,
/// 59, 90, 120, 151, 181, 212, 243, 273, 304, 334, one more from March on in
/// a leap year.
pub proof fn law_days_before_month(m: int, leap: bool)
    requires
        1 <= m <= 12,
    ensures
        days_before_month(m, leap) == seq![0int, 31, 59, 90, 120, 151, 181, 212, 243, 273, 304, 334][m - 1]
            + (if leap && m > 2 { 1int } else { 0int }),
{
    reveal_with_fuel(days_before_month, 13);
}

} // verus!
