//! Civil (proleptic Gregorian) dates of timestamps, as `YYYY-MM-DD`.
use vstd::prelude::*;
use vstd::string::StringExecFns;
use crate::text::{padded, padded_string};

verus! {

broadcast use vstd::string::group_string_axioms;

pub open spec fn is_leap(y: int) -> bool {
    (y % 4 == 0 && y % 100 != 0) || y % 400 == 0
}

pub open spec fn year_len(y: int) -> int {
    if is_leap(y) {
        366
    } else {
        365
    }
}

pub open spec fn month_len(y: int, m: int) -> int {
    if m == 2 {
        if is_leap(y) {
            29
        } else {
            28
        }
    } else if m == 4 || m == 6 || m == 9 || m == 11 {
        30
    } else {
        31
    }
}

/// Days from 1970-01-01 to the first day of year `y`.
pub open spec fn days_before_year(y: int) -> int
    decreases y - 1970,
{
    if y <= 1970 {
        0
    } else {
        days_before_year(y - 1) + year_len(y - 1)
    }
}

/// Days from the first of January of year `y` to the first day of month `m`.
pub open spec fn days_before_month(y: int, m: int) -> int
    decreases m,
{
    if m <= 1 {
        0
    } else {
        days_before_month(y, m - 1) + month_len(y, m - 1)
    }
}

/// `(y, m, d)` is the calendar date `days` days after 1970-01-01.
pub open spec fn is_date_of_day(days: int, y: int, m: int, d: int) -> bool {
    &&& y >= 1970
    &&& 1 <= m <= 12
    &&& 1 <= d <= month_len(y, m)
    &&& days == days_before_year(y) + days_before_month(y, m) + d - 1
}

/// A date written `YYYY-MM-DD`.
pub open spec fn date_text(y: nat, m: nat, d: nat) -> Seq<char> {
    padded(y, 4) + seq!['-'] + padded(m, 2) + seq!['-'] + padded(d, 2)
}

proof fn lemma_year_in_months(y: int)
    ensures
        days_before_month(y, 13) == year_len(y),
{
    reveal_with_fuel(days_before_month, 13);
}

proof fn lemma_years_grow(a: int, b: int)
    requires
        1970 <= a < b,
    ensures
        days_before_year(b) >= days_before_year(a) + year_len(a),
    decreases b - a,
{
    if b > a + 1 {
        lemma_years_grow(a, b - 1);
    }
}

proof fn lemma_months_grow(y: int, a: int, b: int)
    requires
        1 <= a < b,
    ensures
        days_before_month(y, b) >= days_before_month(y, a) + month_len(y, a),
    decreases b - a,
{
    if b > a + 1 {
        lemma_months_grow(y, a, b - 1);
    }
}

/// A day has one calendar date.
pub proof fn lemma_date_of_day_unique(days: int, y1: int, m1: int, d1: int, y2: int, m2: int, d2: int)
    requires
        is_date_of_day(days, y1, m1, d1),
        is_date_of_day(days, y2, m2, d2),
    ensures
        y1 == y2 && m1 == m2 && d1 == d2,
{
    lemma_year_in_months(y1);
    lemma_year_in_months(y2);
    if m1 > 1 {
        lemma_months_grow(y1, 1, m1);
    }
    if m2 > 1 {
        lemma_months_grow(y2, 1, m2);
    }
    if y1 < y2 {
        lemma_years_grow(y1, y2);
        lemma_months_grow(y1, m1, 13);
    } else if y2 < y1 {
        lemma_years_grow(y2, y1);
        lemma_months_grow(y2, m2, 13);
    } else if m1 < m2 {
        lemma_months_grow(y1, m1, m2);
    } else if m2 < m1 {
        lemma_months_grow(y1, m2, m1);
    }
}

fn year_length(y: u64) -> (r: u64)
    ensures
        r == year_len(y as int),
{
    if (y % 4 == 0 && y % 100 != 0) || y % 400 == 0 {
        366
    } else {
        365
    }
}

fn month_length(y: u64, m: u64) -> (r: u64)
    ensures
        r == month_len(y as int, m as int),
{
    if m == 2 {
        if (y % 4 == 0 && y % 100 != 0) || y % 400 == 0 {
            29
        } else {
            28
        }
    } else if m == 4 || m == 6 || m == 9 || m == 11 {
        30
    } else {
        31
    }
}

/// The calendar date of day number `days` (day 0 is 1970-01-01).
pub fn date_of_day(days: u64) -> (r: (u64, u64, u64))
    ensures
        is_date_of_day(days as int, r.0 as int, r.1 as int, r.2 as int),
{
    let mut y: u64 = 1970;
    let mut rem: u64 = days;
    loop
        invariant
            1970 <= y,
            (y - 1970) * 365 <= days - rem,
            rem <= days,
            days == days_before_year(y as int) + rem,
        ensures
            1970 <= y,
            days == days_before_year(y as int) + rem,
            rem < year_len(y as int),
        decreases rem,
    {
        let len = year_length(y);
        if rem < len {
            break;
        }
        assert(len >= 365);
        rem = rem - len;
        y = y + 1;
    }
    proof {
        lemma_year_in_months(y as int);
    }
    let mut m: u64 = 1;
    loop
        invariant
            1 <= m <= 12,
            1970 <= y,
            days == days_before_year(y as int) + days_before_month(y as int, m as int) + rem,
            days_before_month(y as int, m as int) + rem < year_len(y as int),
            days_before_month(y as int, 13) == year_len(y as int),
        ensures
            1 <= m <= 12,
            days == days_before_year(y as int) + days_before_month(y as int, m as int) + rem,
            rem < month_len(y as int, m as int),
        decreases 12 - m,
    {
        let len = month_length(y, m);
        if rem < len {
            break;
        }
        proof {
            if m == 12 {
                assert(days_before_month(y as int, 13) == days_before_month(y as int, 12)
                    + month_len(y as int, 12));
            }
        }
        rem = rem - len;
        m = m + 1;
    }
    (y, m, rem + 1)
}

/// The calendar date of a timestamp in seconds since the epoch (UTC), as
/// `YYYY-MM-DD`; that date is unique (`lemma_date_of_day_unique`).
pub fn date_of_timestamp(secs: u64) -> (r: String)
    ensures
        exists|y: nat, m: nat, d: nat|
            is_date_of_day(secs as int / 86400, y as int, m as int, d as int) && r@ == date_text(y, m, d),
{
    let (y, m, d) = date_of_day(secs / 86400);
    let mut s = padded_string(y, 4);
    s.append("-");
    let ms = padded_string(m, 2);
    s.append(ms.as_str());
    s.append("-");
    let ds = padded_string(d, 2);
    s.append(ds.as_str());
    proof {
        reveal_strlit("-");
        assert(s@ =~= date_text(y as nat, m as nat, d as nat));
    }
    s
}

} // verus!
