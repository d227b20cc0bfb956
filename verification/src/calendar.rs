//! Calendar dates from day counts (the catalog's generation date).

use vstd::prelude::*;
use crate::text::{decimal_padded, spec_decimal, zero_pad};

verus! {

/// Integer division rounding toward zero, as Rust's `/` on signed integers.
pub open spec fn trunc_div(a: int, b: int) -> int {
    if a >= 0 { a / b } else { -((-a) / b) }
}

fn tdiv(a: i128, b: i128) -> (r: i128)
    requires
        b > 0,
        a > i128::MIN,
    ensures
        r == trunc_div(a as int, b as int),
{
    if a >= 0 {
        a / b
    } else {
        let n = -a;
        -(n / b)
    }
}

/// Leap years of the proleptic Gregorian calendar.
pub open spec fn is_leap(y: int) -> bool {
    (y % 4 == 0 && y % 100 != 0) || y % 400 == 0
}

pub open spec fn year_len(y: int) -> int {
    if is_leap(y) { 366 } else { 365 }
}

/// The number of days of month `m` (1 to 12) of year `y`.
pub open spec fn month_len(y: int, m: int) -> int {
    if m == 2 {
        if is_leap(y) { 29 } else { 28 }
    } else if m == 4 || m == 6 || m == 9 || m == 11 {
        30
    } else {
        31
    }
}

/// Days from 1970-01-01 to the first day of year `y` (negative before 1970).
pub open spec fn days_before_year(y: int) -> int
    decreases (if y >= 1970 { y - 1970 } else { 1970 - y }),
{
    if y == 1970 {
        0
    } else if y > 1970 {
        days_before_year(y - 1) + year_len(y - 1)
    } else {
        days_before_year(y + 1) - year_len(y)
    }
}

/// Days of year `y` in the months before month `m`.
pub open spec fn days_before_month(y: int, m: int) -> int
    decreases m,
{
    if m <= 1 { 0 } else { days_before_month(y, m - 1) + month_len(y, m - 1) }
}

/// A date is valid: a month of the year and a day of that month.
pub open spec fn valid_date(y: int, m: int, d: int) -> bool {
    1 <= m <= 12 && 1 <= d <= month_len(y, m)
}

/// How many days after 1970-01-01 a date is.
pub open spec fn day_number(y: int, m: int, d: int) -> int {
    days_before_year(y) + days_before_month(y, m) + d - 1
}

/// Leap years counted up to (not including) year `y`, from an arbitrary origin.
spec fn leap_count(y: int) -> int {
    (y - 1) / 4 - (y - 1) / 100 + (y - 1) / 400
}

proof fn lemma_floor_step(y: int)
    ensures
        y / 4 - (y - 1) / 4 == (if y % 4 == 0 { 1int } else { 0int }),
        y / 100 - (y - 1) / 100 == (if y % 100 == 0 { 1int } else { 0int }),
        y / 400 - (y - 1) / 400 == (if y % 400 == 0 { 1int } else { 0int }),
        y % 400 == 0 ==> y % 100 == 0,
        y % 100 == 0 ==> y % 4 == 0,
{
}

proof fn lemma_leap_count_step(y: int)
    ensures
        leap_count(y + 1) - leap_count(y) == (if is_leap(y) { 1int } else { 0int }),
{
    lemma_floor_step(y);
}

proof fn lemma_days_before_year(y: int)
    ensures
        days_before_year(y) == 365 * (y - 1970) + leap_count(y) - leap_count(1970),
    decreases (if y >= 1970 { y - 1970 } else { 1970 - y }),
{
    if y > 1970 {
        lemma_days_before_year(y - 1);
        lemma_leap_count_step(y - 1);
    } else if y < 1970 {
        lemma_days_before_year(y + 1);
        lemma_leap_count_step(y);
    }
}

/// Days from the start of a 400-year cycle (on 1 March) to 1 March of its
/// `k`-th year.
spec fn cycle_start(k: int) -> int {
    365 * k + k / 4 - k / 100 + k / 400
}

/// The year of the cycle that day `doe` of the cycle falls in.
spec fn cycle_year(doe: int) -> int {
    (doe - doe / 1460 + doe / 36524 - doe / 146096) / 365
}

proof fn lemma_cycle_year(doe: int)
    requires
        0 <= doe <= 146096,
    ensures
        0 <= cycle_year(doe) <= 399,
        cycle_start(cycle_year(doe)) <= doe < cycle_start(cycle_year(doe) + 1),
{
}

/// Days of a common year before month `m`.
spec fn common_before(m: int) -> int {
    if m <= 1 { 0 } else if m == 2 { 31 } else if m == 3 { 59 } else if m == 4 { 90 }
    else if m == 5 { 120 } else if m == 6 { 151 } else if m == 7 { 181 } else if m == 8 { 212 }
    else if m == 9 { 243 } else if m == 10 { 273 } else if m == 11 { 304 } else { 334 }
}

proof fn lemma_days_before_month(y: int, m: int)
    requires
        1 <= m <= 12,
    ensures
        days_before_month(y, m) == common_before(m) + (if m > 2 && is_leap(y) { 1int } else { 0int }),
{
    reveal_with_fuel(days_before_month, 12);
}

/// Month and day of day `doy` of a year that starts on 1 March.
spec fn march_month(doy: int) -> (int, int) {
    let mp = (5 * doy + 2) / 153;
    let d = doy - (153 * mp + 2) / 5 + 1;
    (if mp < 10 { mp + 3 } else { mp - 9 }, d)
}

proof fn lemma_march_month(doy: int)
    requires
        0 <= doy <= 365,
    ensures
        1 <= march_month(doy).0 <= 12,
        1 <= march_month(doy).1,
        march_month(doy).0 >= 3 ==> common_before(march_month(doy).0) - 59 + march_month(doy).1 - 1 == doy
            && march_month(doy).1 <= month_len(1970, march_month(doy).0),
        march_month(doy).0 <= 2 ==> 306 + common_before(march_month(doy).0) + march_month(doy).1 - 1 == doy,
        march_month(doy).0 == 1 ==> march_month(doy).1 <= 31,
        march_month(doy).0 == 2 ==> march_month(doy).1 <= 29 && (march_month(doy).1 == 29 ==> doy == 365),
{
}

proof fn lemma_cycle_floors(e: int, k: int)
    requires
        0 <= k < 400,
    ensures
        (400 * e + k) / 4 == 100 * e + k / 4,
        (400 * e + k) / 100 == 4 * e + k / 100,
        (400 * e + k) / 400 == e,
        is_leap(400 * e + k + 1) == is_leap(k + 1),
{
    assert((400 * e + k + 1) % 4 == (k + 1) % 4);
    assert((400 * e + k + 1) % 100 == (k + 1) % 100);
    assert((400 * e + k + 1) % 400 == (k + 1) % 400);
}

#[verifier::spinoff_prover]
proof fn lemma_march_first(e: int, k: int)
    requires
        0 <= k < 400,
    ensures
        days_before_year(400 * e + k) + 59 + (if is_leap(400 * e + k) { 1int } else { 0int })
            == 146097 * e + cycle_start(k) - 719468,
        is_leap(400 * e + k + 1) == is_leap(k + 1),
{
    let y = 400 * e + k;
    lemma_days_before_year(y);
    lemma_leap_count_step(y);
    lemma_cycle_floors(e, k);
    assert(leap_count(1970) == 477);
    assert(leap_count(y + 1) == y / 4 - y / 100 + y / 400);
}

proof fn lemma_era(z: int)
    ensures
        trunc_div(if z >= 0 { z } else { z - 146096 }, 146097) == z / 146097,
        0 <= z - (z / 146097) * 146097 < 146097,
{
}

/// The date `days` days after 1970-01-01 (proleptic Gregorian): the valid
/// date with that day number.
pub open spec fn civil_date(days: int) -> (int, int, int) {
    choose|t: (int, int, int)| valid_date(t.0, t.1, t.2) && day_number(t.0, t.1, t.2) == days
}

/// Howard Hinnant's `civil_from_days` step by step, in Rust's signed
/// integer arithmetic: (year, month, day).
spec fn hinnant(days: int) -> (int, int, int) {
    let z = days + 719468;
    let era = trunc_div(if z >= 0 { z } else { z - 146096 }, 146097);
    let doe = z - era * 146097;
    let yoe = trunc_div(doe - trunc_div(doe, 1460) + trunc_div(doe, 36524) - trunc_div(doe, 146096), 365);
    let y = yoe + era * 400;
    let doy = doe - (365 * yoe + trunc_div(yoe, 4) - trunc_div(yoe, 100));
    let mp = trunc_div(5 * doy + 2, 153);
    let d = doy - trunc_div(153 * mp + 2, 5) + 1;
    let m = if mp < 10 { mp + 3 } else { mp - 9 };
    (if m <= 2 { y + 1 } else { y }, m, d)
}

/// The civil date of a day count since the Unix epoch.
pub fn civil_from_days(days: i64) -> (r: (i64, i64, i64))
    ensures
        valid_date(r.0 as int, r.1 as int, r.2 as int),
        day_number(r.0 as int, r.1 as int, r.2 as int) == days as int,
        (r.0 as int, r.1 as int, r.2 as int) == civil_date(days as int),
{
    let z: i128 = days as i128 + 719468;
    let era = tdiv(if z >= 0 { z } else { z - 146096 }, 146097);
    let doe = z - era * 146097;
    assert(0 <= doe < 146097) by {
        vstd::arithmetic::div_mod::lemma_fundamental_div_mod(z as int, 146097);
    }
    let yoe = tdiv(doe - tdiv(doe, 1460) + tdiv(doe, 36524) - tdiv(doe, 146096), 365);
    let y = yoe + era * 400;
    let doy = doe - (365 * yoe + tdiv(yoe, 4) - tdiv(yoe, 100));
    let mp = tdiv(5 * doy + 2, 153);
    let d = doy - tdiv(153 * mp + 2, 5) + 1;
    let m = if mp < 10 { mp + 3 } else { mp - 9 };
    let yy = if m <= 2 { y + 1 } else { y };
    let r = (yy as i64, m as i64, d as i64);
    proof {
        assert((r.0 as int, r.1 as int, r.2 as int) == hinnant(days as int));
        lemma_civil_date(days as int);
    }
    r
}

/// `n` written as `format!("{n:0width$}")` writes a signed number: a sign
/// for negatives, then zeros up to the width.
pub open spec fn spec_padded(n: int, width: nat) -> Seq<char> {
    if n < 0 {
        "-"@ + zero_pad(spec_decimal((-n) as nat), (width - 1) as nat)
    } else {
        zero_pad(spec_decimal(n as nat), width)
    }
}

/// A date as `YYYY-MM-DD`.
pub open spec fn spec_iso_date(y: int, m: int, d: int) -> Seq<char> {
    spec_padded(y, 4) + "-"@ + spec_padded(m, 2) + "-"@ + spec_padded(d, 2)
}

/// The date a Unix timestamp (in seconds) falls on, as `YYYY-MM-DD`.
pub open spec fn spec_iso_of_secs(secs: int) -> Seq<char> {
    let c = civil_date(trunc_div(secs, 86400));
    spec_iso_date(c.0, c.1, c.2)
}

fn padded(n: i64, width: usize) -> (r: String)
    requires
        width >= 1,
    ensures
        r@ == spec_padded(n as int, width as nat),
{
    if n < 0 {
        let mut r = String::from_str("-");
        let magnitude: i128 = -(n as i128);
        let digits = decimal_padded(magnitude as u128, width - 1);
        r.append(digits.as_str());
        proof {
            reveal_strlit("-");
        }
        r
    } else {
        decimal_padded(n as u128, width)
    }
}

/// Formats a date as `YYYY-MM-DD`.
pub fn iso_date(y: i64, m: i64, d: i64) -> (r: String)
    ensures
        r@ == spec_iso_date(y as int, m as int, d as int),
{
    let mut r = padded(y, 4);
    r.append("-");
    let ms = padded(m, 2);
    r.append(ms.as_str());
    r.append("-");
    let ds = padded(d, 2);
    r.append(ds.as_str());
    r
}

/// The date a Unix timestamp in seconds falls on, as `YYYY-MM-DD`.
pub fn iso_date_from_secs(secs: i64) -> (r: String)
    ensures
        r@ == spec_iso_of_secs(secs as int),
{
    let days = tdiv(secs as i128, 86400) as i64;
    let (y, m, d) = civil_from_days(days);
    iso_date(y, m, d)
}

/// Calls `SystemTime::now` and `duration_since(UNIX_EPOCH)`: whole seconds
/// and milliseconds since the epoch, or the error's text when the clock is
/// earlier. The clock decides, so nothing is claimed of the values.
#[verifier::external_body]
pub(crate) fn since_epoch() -> (r: Result<(u64, u128), String>) {
    std::time::SystemTime::now()
        .duration_since(std::time::UNIX_EPOCH)
        .map(|d| (d.as_secs(), d.as_millis()))
        .map_err(|e| e.to_string())
}

/// Today's date (UTC) as `YYYY-MM-DD`; a clock before the epoch reads as the epoch.
pub fn today_iso() -> (r: String)
    ensures
        exists|secs: i64| r@ == spec_iso_of_secs(secs as int),
{
    let secs: i64 = match since_epoch() {
        Ok((s, _)) => s as i64,
        Err(_) => 0,
    };
    iso_date_from_secs(secs)
}

proof fn lemma_civil_correct(days: int)
    ensures
        valid_date(hinnant(days).0, hinnant(days).1, hinnant(days).2),
        day_number(hinnant(days).0, hinnant(days).1, hinnant(days).2) == days,
{
    let z = days + 719468;
    lemma_era(z);
    let e = z / 146097;
    let doe = z - e * 146097;
    lemma_cycle_year(doe);
    let k = cycle_year(doe);
    assert(trunc_div(doe - trunc_div(doe, 1460) + trunc_div(doe, 36524) - trunc_div(doe, 146096), 365) == k);
    let doy = doe - cycle_start(k);
    assert(doe - (365 * k + trunc_div(k, 4) - trunc_div(k, 100)) == doy);
    assert(cycle_start(k + 1) - cycle_start(k) == 365 + (if is_leap(k + 1) { 1int } else { 0int }));
    assert(0 <= doy <= 365);
    lemma_march_month(doy);
    let (m, d) = march_month(doy);
    assert(trunc_div(5 * doy + 2, 153) == (5 * doy + 2) / 153);
    assert(trunc_div(153 * ((5 * doy + 2) / 153) + 2, 5) == (153 * ((5 * doy + 2) / 153) + 2) / 5);
    let y = k + e * 400;
    lemma_march_first(e, k);
    assert(400 * e + k == y);
    let c = hinnant(days);
    assert(c.1 == m && c.2 == d);
    assert(c.0 == if m <= 2 { y + 1 } else { y });
    lemma_days_before_month(c.0, m);
    if m <= 2 {
        assert(days_before_year(y + 1) == days_before_year(y) + year_len(y)) by {
            if y + 1 > 1970 {
            } else {
            }
        }
    }
    assert(month_len(1970, m) == month_len(c.0, m) || m == 2);
}

proof fn lemma_days_before_year_mono(a: int, b: int)
    requires
        a < b,
    ensures
        days_before_year(b) >= days_before_year(a) + year_len(a),
{
    lemma_days_before_year(a);
    lemma_days_before_year(a + 1);
    lemma_days_before_year(b);
    lemma_leap_count_step(a);
}

proof fn lemma_within_year(y: int, m: int, d: int)
    requires
        valid_date(y, m, d),
    ensures
        0 <= days_before_month(y, m) + d - 1 < year_len(y),
{
    lemma_days_before_month(y, m);
}

/// Two valid dates with the same day number are the same date.
pub proof fn lemma_day_number_unique(y1: int, m1: int, d1: int, y2: int, m2: int, d2: int)
    requires
        valid_date(y1, m1, d1),
        valid_date(y2, m2, d2),
        day_number(y1, m1, d1) == day_number(y2, m2, d2),
    ensures
        y1 == y2 && m1 == m2 && d1 == d2,
{
    lemma_within_year(y1, m1, d1);
    lemma_within_year(y2, m2, d2);
    if y1 < y2 {
        lemma_days_before_year_mono(y1, y2);
    } else if y2 < y1 {
        lemma_days_before_year_mono(y2, y1);
    }
    assert(y1 == y2);
    lemma_days_before_month(y1, m1);
    lemma_days_before_month(y1, m2);
}

proof fn lemma_civil_date(days: int)
    ensures
        civil_date(days) == hinnant(days),
        valid_date(civil_date(days).0, civil_date(days).1, civil_date(days).2),
        day_number(civil_date(days).0, civil_date(days).1, civil_date(days).2) == days,
{
    lemma_civil_correct(days);
    let h = hinnant(days);
    let t = civil_date(days);
    assert(valid_date(t.0, t.1, t.2) && day_number(t.0, t.1, t.2) == days);
    lemma_day_number_unique(t.0, t.1, t.2, h.0, h.1, h.2);
}

/// Every day count names a valid date lying exactly that many days after
/// 1970-01-01 (and by `lemma_day_number_unique` only one).
pub proof fn lemma_civil_date_valid(days: int)
    ensures
        valid_date(civil_date(days).0, civil_date(days).1, civil_date(days).2),
        day_number(civil_date(days).0, civil_date(days).1, civil_date(days).2) == days,
{
    lemma_civil_date(days);
}

/// A date with a year in `0..=9999`, a month in `1..=12` and a day in
/// `1..=31` is written in exactly ten characters.
pub proof fn lemma_iso_date_len(y: int, m: int, d: int)
    requires
        0 <= y <= 9999,
        1 <= m <= 12,
        1 <= d <= 31,
    ensures
        spec_iso_date(y, m, d).len() == 10,
{
    reveal_strlit("-");
    lemma_decimal_len(y as nat);
    lemma_decimal_len(m as nat);
    lemma_decimal_len(d as nat);
}

/// How many decimal digits small numbers have.
pub proof fn lemma_decimal_len(n: nat)
    ensures
        spec_decimal(n).len() >= 1,
        n < 10 ==> spec_decimal(n).len() == 1,
        n < 100 ==> spec_decimal(n).len() <= 2,
        n < 1000 ==> spec_decimal(n).len() <= 3,
        n < 10000 ==> spec_decimal(n).len() <= 4,
    decreases n,
{
    if n >= 10 {
        lemma_decimal_len(n / 10);
    }
}

} // verus!
