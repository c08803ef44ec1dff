//! UTC calendar dates of unix times, written `YYYY-MM-DD`.

use vstd::prelude::*;

use crate::decimal::{nat_text, u64_to_text};
use crate::text::{push_char, push_str};

verus! {

broadcast use vstd::string::group_string_axioms;

/// Seconds in a day.
pub const SECS_PER_DAY: u64 = 86_400;

/// A Gregorian leap year: divisible by 4, and by 400 when divisible by 100.
pub open spec fn is_leap_year(y: int) -> bool {
    y % 4 == 0 && (y % 100 != 0 || y % 400 == 0)
}

/// Days in year `y`.
pub open spec fn year_length(y: int) -> int {
    if is_leap_year(y) {
        366
    } else {
        365
    }
}

/// Days in month `m` (1 to 12) of year `y`.
pub open spec fn month_length(y: int, m: int) -> int {
    if m == 2 {
        if is_leap_year(y) {
            29
        } else {
            28
        }
    } else if m == 4 || m == 6 || m == 9 || m == 11 {
        30
    } else {
        31
    }
}

/// Counting whole years from the start of year `y`: the year that day `n`
/// (from 0) falls in, and which day of that year it is (from 0).
pub open spec fn year_and_day(y: int, n: nat) -> (int, nat)
    decreases n,
{
    if n < year_length(y) {
        (y, n)
    } else {
        year_and_day(y + 1, (n - year_length(y)) as nat)
    }
}

/// Counting whole months of year `y` from the start of month `m`: the month
/// that day `n` (from 0) falls in, and which day of that month it is (from
/// 0). December takes whatever is left.
pub open spec fn month_and_day(y: int, m: int, n: nat) -> (int, nat)
    decreases 12 - m,
{
    if m >= 12 || n < month_length(y, m) {
        (m, n)
    } else {
        month_and_day(y, m + 1, (n - month_length(y, m)) as nat)
    }
}

/// The date (year, month from 1, day of the month from 1) that lies `days`
/// days after 1970-01-01.
pub open spec fn civil_date(days: nat) -> (int, int, int) {
    let (y, d) = year_and_day(1970, days);
    let (m, dd) = month_and_day(y, 1, d);
    (y, m, dd + 1int)
}

/// `n` in decimal, with a `0` in front when it is a single digit.
pub open spec fn two_digit_text(n: nat) -> Seq<char> {
    if n < 10 {
        seq!['0'] + nat_text(n)
    } else {
        nat_text(n)
    }
}

/// The date `days` days after 1970-01-01, written `YYYY-MM-DD`.
pub open spec fn iso_date_text(days: nat) -> Seq<char> {
    let (y, m, d) = civil_date(days);
    nat_text(y as nat) + seq!['-'] + two_digit_text(m as nat) + seq!['-'] + two_digit_text(d as nat)
}

/// The UTC date of the unix time `secs`, written `YYYY-MM-DD`.
pub open spec fn utc_date_text(secs: nat) -> Seq<char> {
    iso_date_text(secs / SECS_PER_DAY as nat)
}

fn year_len(y: u64) -> (r: u64)
    ensures
        r == year_length(y as int),
{
    if y % 4 == 0 && (y % 100 != 0 || y % 400 == 0) {
        366
    } else {
        365
    }
}

fn month_len(y: u64, m: u64) -> (r: u64)
    ensures
        r == month_length(y as int, m as int),
{
    if m == 2 {
        if y % 4 == 0 && (y % 100 != 0 || y % 400 == 0) {
            29
        } else {
            28
        }
    } else if m == 4 || m == 6 || m == 9 || m == 11 {
        30
    } else {
        31
    }
}

fn push_two_digits(out: &mut String, n: u64)
    ensures
        final(out)@ == old(out)@ + two_digit_text(n as nat),
{
    if n < 10 {
        push_char(out, '0');
    }
    let t = u64_to_text(n);
    push_str(out, t.as_str());
    if n < 10 {
        assert(final(out)@ =~= old(out)@ + two_digit_text(n as nat));
    }
}

/// The date `days` days after 1970-01-01, written `YYYY-MM-DD`.
pub fn iso_date(days: u64) -> (s: String)
    ensures
        s@ == iso_date_text(days as nat),
{
    let mut y: u64 = 1970;
    let mut n: u64 = days;
    while n >= year_len(y)
        invariant
            1970 <= y,
            n <= days,
            (y - 1970) * 365 <= days - n,
            year_and_day(y as int, n as nat) == year_and_day(1970, days as nat),
        decreases n,
    {
        let l = year_len(y);
        n = n - l;
        y = y + 1;
    }
    let ghost d0 = n;
    let mut m: u64 = 1;
    while m < 12 && n >= month_len(y, m)
        invariant
            1 <= m <= 12,
            n <= d0,
            d0 < 366,
            month_and_day(y as int, m as int, n as nat) == month_and_day(y as int, 1, d0 as nat),
        decreases 12 - m,
    {
        let l = month_len(y, m);
        n = n - l;
        m = m + 1;
    }
    let mut s = u64_to_text(y);
    push_char(&mut s, '-');
    push_two_digits(&mut s, m);
    push_char(&mut s, '-');
    push_two_digits(&mut s, n + 1);
    s
}

/// The UTC date of the unix time `secs`, written `YYYY-MM-DD`.
pub fn utc_date(secs: u64) -> (s: String)
    ensures
        s@ == utc_date_text(secs as nat),
{
    iso_date(secs / SECS_PER_DAY)
}

/// Days from the start of month `m` of year `y` to the end of the year.
spec fn days_left(y: int, m: int) -> int
    decreases 12 - m,
{
    if m >= 12 {
        month_length(y, 12)
    } else {
        month_length(y, m) + days_left(y, m + 1)
    }
}

proof fn lemma_days_left_long(y: int, m: int)
    ensures
        days_left(y, m) >= 28,
    decreases 12 - m,
{
    lemma_month_lengths(y, m);
    lemma_month_lengths(y, 12);
    if m < 12 {
        lemma_days_left_long(y, m + 1);
    }
}

proof fn lemma_days_left_year(y: int)
    ensures
        days_left(y, 1) == year_length(y),
{
    reveal_with_fuel(days_left, 12);
}

proof fn lemma_month_lengths(y: int, m: int)
    ensures
        28 <= month_length(y, m) <= 31,
{
}

proof fn lemma_year_bounds(y: int, n: nat)
    ensures
        year_and_day(y, n).0 >= y,
        year_and_day(y, n).1 < year_length(year_and_day(y, n).0),
    decreases n,
{
    if n >= year_length(y) {
        lemma_year_bounds(y + 1, (n - year_length(y)) as nat);
    }
}

proof fn lemma_year_next(y: int, n: nat)
    ensures
        ({
            let (yy, d) = year_and_day(y, n);
            year_and_day(y, n + 1) == if d + 1 < year_length(yy) {
                (yy, (d + 1) as nat)
            } else {
                (yy + 1, 0nat)
            }
        }),
    decreases n,
{
    if n >= year_length(y) {
        lemma_year_next(y + 1, (n - year_length(y)) as nat);
        assert((n + 1 - year_length(y)) as nat == (n - year_length(y)) as nat + 1);
    } else if n + 1 >= year_length(y) {
        assert(year_and_day(y + 1, 0) == (y + 1, 0nat));
    }
}

proof fn lemma_month_bounds(y: int, m: int, n: nat)
    requires
        1 <= m <= 12,
        n < days_left(y, m),
    ensures
        m <= month_and_day(y, m, n).0 <= 12,
        month_and_day(y, m, n).1 < month_length(y, month_and_day(y, m, n).0),
    decreases 12 - m,
{
    if m < 12 && n >= month_length(y, m) {
        lemma_month_bounds(y, m + 1, (n - month_length(y, m)) as nat);
    }
}

proof fn lemma_month_next(y: int, m: int, n: nat)
    requires
        1 <= m <= 12,
        n + 1 < days_left(y, m),
    ensures
        ({
            let (mm, d) = month_and_day(y, m, n);
            &&& month_and_day(y, m, n + 1) == if d + 1 < month_length(y, mm) {
                (mm, (d + 1) as nat)
            } else {
                (mm + 1, 0nat)
            }
            &&& d + 1 >= month_length(y, mm) ==> mm < 12
        }),
    decreases 12 - m,
{
    lemma_month_lengths(y, m);
    lemma_month_lengths(y, m + 1);
    if m < 12 {
        if n >= month_length(y, m) {
            lemma_month_next(y, m + 1, (n - month_length(y, m)) as nat);
            assert((n + 1 - month_length(y, m)) as nat == (n - month_length(y, m)) as nat + 1);
        } else if n + 1 >= month_length(y, m) {
            assert(month_and_day(y, m + 1, 0) == (m + 1, 0nat));
        }
    }
}

proof fn lemma_month_last(y: int, m: int, n: nat)
    requires
        1 <= m <= 12,
        n + 1 == days_left(y, m),
    ensures
        month_and_day(y, m, n) == (12int, (month_length(y, 12) - 1) as nat),
    decreases 12 - m,
{
    if m < 12 {
        lemma_month_lengths(y, m);
        lemma_month_lengths(y, m + 1);
        lemma_days_left_long(y, m + 1);
        lemma_month_last(y, m + 1, (n - month_length(y, m)) as nat);
    }
}

/// Every date written is a real Gregorian date from 1970 on: months 1 to
/// 12, and days from 1 to 31 in January, March, May, July, August, October
/// and December, to 30 in April, June, September and November, and to 29
/// in February of a leap year (a year divisible by 4 and, when divisible by
/// 100, by 400) and 28 otherwise.
pub proof fn civil_dates_are_gregorian(days: nat)
    ensures
        ({
            let (y, m, d) = civil_date(days);
            &&& y >= 1970
            &&& 1 <= m <= 12
            &&& 1 <= d
            &&& d <= if m == 2 {
                if y % 4 == 0 && (y % 100 != 0 || y % 400 == 0) {
                    29int
                } else {
                    28int
                }
            } else if m == 4 || m == 6 || m == 9 || m == 11 {
                30int
            } else {
                31int
            }
        }),
{
    let (y, d) = year_and_day(1970, days);
    lemma_year_bounds(1970, days);
    lemma_days_left_year(y);
    lemma_month_bounds(y, 1, d);
}

/// Day 0 is 1970-01-01, and the day after any date is the next day of the
/// Gregorian calendar: the same month with the day one more, or, after the
/// last day of a month (31, 30, 29 or 28 days as above), the first of the
/// next month, or after December 31 the first of January of the next year.
pub proof fn civil_dates_count_days(days: nat)
    ensures
        civil_date(0) == (1970int, 1int, 1int),
        ({
            let (y, m, d) = civil_date(days);
            let last = if m == 2 {
                if y % 4 == 0 && (y % 100 != 0 || y % 400 == 0) {
                    29int
                } else {
                    28int
                }
            } else if m == 4 || m == 6 || m == 9 || m == 11 {
                30int
            } else {
                31int
            };
            civil_date(days + 1) == if d < last {
                (y, m, d + 1)
            } else if m < 12 {
                (y, m + 1, 1int)
            } else {
                (y + 1, 1int, 1int)
            }
        }),
{
    assert(year_and_day(1970, 0) == (1970int, 0nat));
    assert(month_and_day(1970, 1, 0) == (1int, 0nat));
    let (y, d) = year_and_day(1970, days);
    lemma_year_bounds(1970, days);
    lemma_year_next(1970, days);
    lemma_days_left_year(y);
    lemma_days_left_year(y + 1);
    let (m, dd) = month_and_day(y, 1, d);
    lemma_month_bounds(y, 1, d);
    if d + 1 < year_length(y) {
        lemma_month_next(y, 1, d);
    } else {
        lemma_month_last(y, 1, d);
        assert(month_and_day(y + 1, 1, 0) == (1int, 0nat));
    }
}

} // verus!
