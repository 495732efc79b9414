//! Civil dates for the dated system turn of Llama 3 prompts.
use vstd::prelude::*;

use crate::text::{decimal, push_char, push_decimal};

verus! {

/// Gregorian leap year.
pub open spec fn is_leap_year(y: int) -> bool {
    (y % 4 == 0 && y % 100 != 0) || y % 400 == 0
}

/// Number of days in month `m` (1-based) of year `y`.
pub open spec fn month_len(y: int, m: int) -> int {
    if m == 2 {
        if is_leap_year(y) { 29 } else { 28 }
    } else if m == 4 || m == 6 || m == 9 || m == 11 {
        30
    } else {
        31
    }
}

/// Days in the months before month `m` of year `y`.
pub open spec fn days_before_month(y: int, m: int) -> int {
    let base: int = if m == 1 { 0 } else if m == 2 { 31 } else if m == 3 { 59 } else if m == 4 { 90 } else if m == 5 { 120 }
        else if m == 6 { 151 } else if m == 7 { 181 } else if m == 8 { 212 } else if m == 9 { 243 }
        else if m == 10 { 273 } else if m == 11 { 304 } else { 334 };
    base + if m > 2 && is_leap_year(y) { 1int } else { 0int }
}

/// Leap years among `1..=n`, counted negatively below year one.
pub open spec fn leap_count(n: int) -> int {
    n / 4 - n / 100 + n / 400
}

/// Days from 1970-01-01 to `y-m-d` in the proleptic Gregorian calendar.
pub open spec fn days_from_civil(y: int, m: int, d: int) -> int {
    365 * (y - 1970) + (leap_count(y - 1) - leap_count(1969)) + days_before_month(y, m) + d - 1
}

/// A valid calendar date.
pub open spec fn valid_date(y: int, m: int, d: int) -> bool {
    1 <= m <= 12 && 1 <= d <= month_len(y, m)
}

/// Days from the start of a 400-year era (a March 1st) to March 1st of year `n` of it.
pub open spec fn era_days(n: int) -> int {
    365 * n + n / 4 - n / 100 + n / 400
}

#[verifier::spinoff_prover]
proof fn lemma_year_of_era(doe: int)
    requires
        0 <= doe <= 146096,
    ensures
        ({
            let yoe = (doe - doe / 1460 + doe / 36524 - doe / 146096) / 365;
            &&& 0 <= yoe <= 399
            &&& era_days(yoe) <= doe < era_days(yoe + 1)
        }),
{
}

} // verus!

verus! {

/// The month and day of the `doy`-th day (from 0) of a year that starts on
/// March 1st: `mp` counts months from March.
#[verifier::spinoff_prover]
proof fn lemma_month_of_march_year(doy: int, leap_next: bool)
    requires
        0 <= doy < 365 + if leap_next { 1int } else { 0int },
    ensures
        ({
            let mp = (5 * doy + 2) / 153;
            let d = doy - (153 * mp + 2) / 5 + 1;
            &&& 0 <= mp <= 11
            &&& 1 <= d
            &&& mp < 10 ==> d <= month_len(0, mp + 3) && (153 * mp + 2) / 5 + 59 == days_before_month(1, mp + 3)
            &&& mp >= 10 ==> d <= (if mp == 11 { 28 + if leap_next { 1int } else { 0int } } else { 31 })
                && (153 * mp + 2) / 5 - 306 == days_before_month(1, mp - 9)
        }),
{
}

/// The date of the `doy`-th day of the March-based year `ym` (`ym`-03-01
/// plus `doy` days), as the algorithm below computes it.
#[verifier::spinoff_prover]
proof fn lemma_civil_from_march(ym: int, doy: int)
    requires
        0 <= doy < 365 + if is_leap_year(ym + 1) { 1int } else { 0int },
    ensures
        ({
            let mp = (5 * doy + 2) / 153;
            let d = doy - (153 * mp + 2) / 5 + 1;
            let m = if mp < 10 { mp + 3 } else { mp - 9 };
            let y = if m <= 2 { ym + 1 } else { ym };
            &&& valid_date(y, m, d)
            &&& days_from_civil(y, m, d) == 365 * ym + leap_count(ym) + doy - 719_468
        }),
{
    lemma_month_of_march_year(doy, is_leap_year(ym + 1));
    let mp = (5 * doy + 2) / 153;
    let m = if mp < 10 { mp + 3 } else { mp - 9 };
    assert(leap_count(1969) == 477);
    if m <= 2 {
        assert(leap_count(ym + 1 - 1) == leap_count(ym));
    } else {
        assert(leap_count(ym) - leap_count(ym - 1) == if is_leap_year(ym) { 1int } else { 0int });
    }
}

#[verifier::spinoff_prover]
proof fn lemma_leap_count_era(era: int, yoe: int)
    requires
        0 <= yoe <= 399,
    ensures
        leap_count(yoe + era * 400) == 97 * era + yoe / 4 - yoe / 100,
        is_leap_year(yoe + era * 400 + 1) == is_leap_year(yoe + 1),
{
}

/// Splitting a day count from 0000-03-01 into a March-based year and a day of it.
#[verifier::spinoff_prover]
proof fn lemma_march_year_of(z: int)
    ensures
        ({
            let era = z / 146_097;
            let doe = z % 146_097;
            let yoe = (doe - doe / 1460 + doe / 36524 - doe / 146_096) / 365;
            let doy = doe - (365 * yoe + yoe / 4 - yoe / 100);
            let ym = yoe + era * 400;
            &&& 0 <= yoe <= 399
            &&& 0 <= doy < 365 + if is_leap_year(ym + 1) { 1int } else { 0int }
            &&& z == 365 * ym + leap_count(ym) + doy
        }),
{
    let era = z / 146_097;
    let doe = z % 146_097;
    lemma_year_of_era(doe);
    let yoe = (doe - doe / 1460 + doe / 36524 - doe / 146_096) / 365;
    lemma_leap_count_era(era, yoe);
    assert(era_days(yoe) == 365 * yoe + yoe / 4 - yoe / 100);
    assert(era_days(yoe + 1) - era_days(yoe) == 365 + if is_leap_year(yoe + 1) { 1int } else { 0int });
    assert(z == 146_097 * era + doe);
}

proof fn lemma_next_year_start(y: int)
    ensures
        days_from_civil(y + 1, 1, 1) == days_from_civil(y, 1, 1) + 365 + if is_leap_year(y) { 1int } else { 0int },
{
    assert(leap_count(y) - leap_count(y - 1) == if is_leap_year(y) { 1int } else { 0int });
}

proof fn lemma_within_year(y: int, m: int, d: int)
    requires
        valid_date(y, m, d),
    ensures
        days_from_civil(y, 1, 1) <= days_from_civil(y, m, d) < days_from_civil(y + 1, 1, 1),
{
    lemma_next_year_start(y);
}

proof fn lemma_later_year_starts_later(y1: int, y2: int)
    requires
        y1 < y2,
    ensures
        days_from_civil(y1 + 1, 1, 1) <= days_from_civil(y2, 1, 1),
    decreases y2 - y1,
{
    if y1 + 1 < y2 {
        lemma_later_year_starts_later(y1 + 1, y2);
        lemma_next_year_start(y1 + 1);
    }
}

proof fn lemma_later_month_later(y: int, m1: int, d1: int, m2: int, d2: int)
    requires
        valid_date(y, m1, d1),
        valid_date(y, m2, d2),
        m1 < m2,
    ensures
        days_from_civil(y, m1, d1) < days_from_civil(y, m2, d2),
{
    assert(days_before_month(y, m1) + month_len(y, m1) <= days_before_month(y, m2));
}

/// Different valid dates lie on different days: `days_from_civil` is one to
/// one on valid dates, so the date [`days_to_ymd`] gives is the only one.
pub proof fn law_days_from_civil_one_to_one(y1: int, m1: int, d1: int, y2: int, m2: int, d2: int)
    requires
        valid_date(y1, m1, d1),
        valid_date(y2, m2, d2),
        days_from_civil(y1, m1, d1) == days_from_civil(y2, m2, d2),
    ensures
        y1 == y2 && m1 == m2 && d1 == d2,
{
    lemma_within_year(y1, m1, d1);
    lemma_within_year(y2, m2, d2);
    if y1 < y2 {
        lemma_later_year_starts_later(y1, y2);
    } else if y2 < y1 {
        lemma_later_year_starts_later(y2, y1);
    } else if m1 < m2 {
        lemma_later_month_later(y1, m1, d1, m2, d2);
    } else if m2 < m1 {
        lemma_later_month_later(y1, m2, d2, m1, d1);
    }
}

/// The civil date `days` days after 1970-01-01: `(year, month, day)`.
pub fn days_to_ymd(days: i64) -> (r: (i64, i64, i64))
    requires
        days <= i64::MAX - 719_468,
    ensures
        valid_date(r.0 as int, r.1 as int, r.2 as int),
        days_from_civil(r.0 as int, r.1 as int, r.2 as int) == days as int,
        forall|y: int, m: int, d: int| valid_date(y, m, d) && #[trigger] days_from_civil(y, m, d) == days as int
            ==> y == r.0 && m == r.1 && d == r.2,
{
    proof { lemma_march_year_of(days + 719_468); }
    let z = days + 719_468;
    let era = (if z >= 0 { z } else { z - 146_096 }) / 146_097;
    assert(era as int == z as int / 146_097);
    let doe = z - era * 146_097;
    let yoe = (doe - doe / 1460 + doe / 36524 - doe / 146_096) / 365;
    let y = yoe + era * 400;
    let doy = doe - (365 * yoe + yoe / 4 - yoe / 100);
    proof { lemma_civil_from_march(y as int, doy as int); }
    let mp = (5 * doy + 2) / 153;
    let d = doy - (153 * mp + 2) / 5 + 1;
    let m = if mp < 10 { mp + 3 } else { mp - 9 };
    let y = if m <= 2 { y + 1 } else { y };
    proof {
        assert forall|y2: int, m2: int, d2: int| valid_date(y2, m2, d2) && #[trigger] days_from_civil(y2, m2, d2) == days as int
            implies y2 == y && m2 == m && d2 == d by {
            law_days_from_civil_one_to_one(y as int, m as int, d as int, y2, m2, d2);
        }
    }
    (y, m, d)
}

} // verus!

verus! {

/// English three-letter month abbreviation.
pub open spec fn month_abbrev(m: int) -> Seq<char> {
    if m == 1 { "Jan"@ } else if m == 2 { "Feb"@ } else if m == 3 { "Mar"@ } else if m == 4 { "Apr"@ }
    else if m == 5 { "May"@ } else if m == 6 { "Jun"@ } else if m == 7 { "Jul"@ } else if m == 8 { "Aug"@ }
    else if m == 9 { "Sep"@ } else if m == 10 { "Oct"@ } else if m == 11 { "Nov"@ } else { "Dec"@ }
}

/// A signed decimal numeral.
pub open spec fn int_text(n: int) -> Seq<char> {
    if n < 0 { seq!['-'] + decimal((-n) as nat) } else { decimal(n as nat) }
}

/// A number below 100 on two digits, zero-padded.
pub open spec fn two_digits(n: nat) -> Seq<char> {
    if n < 10 { seq!['0'] + decimal(n) } else { decimal(n) }
}

/// `DD Mon YYYY`.
pub open spec fn date_words(y: int, m: int, d: int) -> Seq<char> {
    two_digits(d as nat) + seq![' '] + month_abbrev(m) + seq![' '] + int_text(y)
}

/// A text naming the date that lies `days` days after 1970-01-01.
pub open spec fn is_date_of(t: Seq<char>, days: int) -> bool {
    exists|y: int, m: int, d: int| valid_date(y, m, d) && days_from_civil(y, m, d) == days && t == #[trigger] date_words(y, m, d)
}

fn push_int(out: &mut String, n: i64)
    ensures
        final(out)@ == old(out)@ + int_text(n as int),
{
    if n < 0 {
        push_char(out, '-');
        let a = (-(n as i128)) as u64;
        push_decimal(out, a);
        assert(final(out)@ == old(out)@ + (seq!['-'] + decimal((-n) as nat)));
    } else {
        push_decimal(out, n as u64);
    }
}

/// `DD Mon YYYY` for a valid date.
pub fn date_text(y: i64, m: i64, d: i64) -> (r: String)
    requires
        valid_date(y as int, m as int, d as int),
    ensures
        r@ == date_words(y as int, m as int, d as int),
{
    let mut out = String::new();
    if d < 10 {
        push_char(&mut out, '0');
    }
    push_decimal(&mut out, d as u64);
    push_char(&mut out, ' ');
    let name = if m == 1 { "Jan" } else if m == 2 { "Feb" } else if m == 3 { "Mar" } else if m == 4 { "Apr" }
        else if m == 5 { "May" } else if m == 6 { "Jun" } else if m == 7 { "Jul" } else if m == 8 { "Aug" }
        else if m == 9 { "Sep" } else if m == 10 { "Oct" } else if m == 11 { "Nov" } else { "Dec" };
    out.append(name);
    push_char(&mut out, ' ');
    push_int(&mut out, y);
    assert(out@ =~= date_words(y as int, m as int, d as int));
    out
}

/// The date of a Unix time, as `DD Mon YYYY`.
pub fn date_string(secs: u64) -> (r: String)
    ensures
        is_date_of(r@, secs as int / 86_400),
{
    let days = (secs / 86_400) as i64;
    let (y, m, d) = days_to_ymd(days);
    let r = date_text(y, m, d);
    assert(r@ == date_words(y as int, m as int, d as int));
    r
}

/// Seconds since the Unix epoch by the system clock; zero for a clock set
/// before the epoch. Nothing is stated: the clock decides.
#[verifier::external_body]
fn unix_seconds() -> u64 {
    std::time::SystemTime::now().duration_since(std::time::UNIX_EPOCH).unwrap_or_default().as_secs()
}

/// Today's date by the system clock, as `DD Mon YYYY`.
pub fn today_date_string() -> (r: String)
    ensures
        exists|days: int| 0 <= days && #[trigger] is_date_of(r@, days),
{
    let secs = unix_seconds();
    let r = date_string(secs);
    assert(is_date_of(r@, secs as int / 86_400));
    r
}

} // verus!
