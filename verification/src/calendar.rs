//! Dates of the proleptic Gregorian calendar, for the timestamps of entries.

use vstd::prelude::*;

use crate::text::{push_char, push_decimal, push_str, decimal, zero_padded};

verus! {

/// A leap year of the Gregorian calendar.
pub open spec fn is_leap(y: int) -> bool {
    y % 4 == 0 && (y % 100 != 0 || y % 400 == 0)
}

/// Days in year `y`.
pub open spec fn year_len(y: int) -> int {
    if is_leap(y) { 366 } else { 365 }
}

/// Days in month `m` of year `y`.
pub open spec fn month_len(y: int, m: int) -> int {
    if m == 2 {
        if is_leap(y) { 29 } else { 28 }
    } else if m == 4 || m == 6 || m == 9 || m == 11 {
        30
    } else {
        31
    }
}

/// Leap years from year 1 to year `y - 1`.
pub open spec fn leaps_before(y: int) -> int {
    (y - 1) / 4 - (y - 1) / 100 + (y - 1) / 400
}

/// Days from 1970-01-01 to the first of January of year `y`.
pub open spec fn days_before_year(y: int) -> int {
    365 * (y - 1970) + leaps_before(y) - leaps_before(1970)
}

/// Days from the first of January to the first day of month `m` of year `y`.
pub open spec fn days_before_month(y: int, m: int) -> int
    decreases m,
{
    if m <= 1 {
        0
    } else {
        days_before_month(y, m - 1) + month_len(y, m - 1)
    }
}

/// A date that exists.
pub open spec fn valid_date(y: int, m: int, d: int) -> bool {
    1 <= m <= 12 && 1 <= d <= month_len(y, m)
}

/// Days from 1970-01-01 to the date `y-m-d`.
pub open spec fn days_from_civil(y: int, m: int, d: int) -> int {
    days_before_year(y) + days_before_month(y, m) + d - 1
}

proof fn lemma_next_year(y: int)
    ensures
        days_before_year(y + 1) == days_before_year(y) + year_len(y),
{
    assert(y / 4 - (y - 1) / 4 == (if y % 4 == 0 { 1int } else { 0 }));
    assert(y / 100 - (y - 1) / 100 == (if y % 100 == 0 { 1int } else { 0 }));
    assert(y / 400 - (y - 1) / 400 == (if y % 400 == 0 { 1int } else { 0 }));
}

proof fn lemma_cycles(k: int)
    ensures
        days_before_year(1970 + 400 * k) == 146097 * k,
{
    assert((1969 + 400 * k) / 4 == 492 + 100 * k);
    assert((1969 + 400 * k) / 100 == 19 + 4 * k);
    assert((1969 + 400 * k) / 400 == 4 + k);
}

proof fn lemma_years_increase(a: int, b: int)
    requires
        a < b,
    ensures
        days_before_year(a) + year_len(a) <= days_before_year(b),
    decreases b - a,
{
    lemma_next_year(a);
    if a + 1 < b {
        lemma_years_increase(a + 1, b);
    }
}

proof fn lemma_months_increase(y: int, a: int, b: int)
    requires
        1 <= a < b,
    ensures
        days_before_month(y, a) + month_len(y, a) <= days_before_month(y, b),
    decreases b - a,
{
    if a + 1 < b {
        lemma_months_increase(y, a + 1, b);
    }
}

proof fn lemma_year_is_twelve_months(y: int)
    ensures
        days_before_month(y, 13) == year_len(y),
{
    reveal_with_fuel(days_before_month, 13);
}

/// A date lies within its year.
proof fn lemma_date_within_year(y: int, m: int, d: int)
    requires
        valid_date(y, m, d),
    ensures
        days_before_year(y) <= days_from_civil(y, m, d) < days_before_year(y) + year_len(y),
{
    lemma_months_increase(y, m, 13);
    lemma_year_is_twelve_months(y);
    lemma_days_before_month_nonnegative(y, m);
}

proof fn lemma_days_before_month_nonnegative(y: int, m: int)
    ensures
        days_before_month(y, m) >= 0,
    decreases m,
{
    if m > 1 {
        lemma_days_before_month_nonnegative(y, m - 1);
    }
}

/// Different dates are different days: the date of a day is unique.
pub proof fn lemma_one_date_per_day(y1: int, m1: int, d1: int, y2: int, m2: int, d2: int)
    requires
        valid_date(y1, m1, d1),
        valid_date(y2, m2, d2),
        days_from_civil(y1, m1, d1) == days_from_civil(y2, m2, d2),
    ensures
        y1 == y2 && m1 == m2 && d1 == d2,
{
    lemma_date_within_year(y1, m1, d1);
    lemma_date_within_year(y2, m2, d2);
    if y1 < y2 {
        lemma_years_increase(y1, y2);
    } else if y2 < y1 {
        lemma_years_increase(y2, y1);
    } else if m1 < m2 {
        lemma_months_increase(y1, m1, m2);
    } else if m2 < m1 {
        lemma_months_increase(y1, m2, m1);
    }
}

/// The date of the day `days` days after 1970-01-01.
pub open spec fn date_of(days: int) -> (int, int, int) {
    choose|t: (int, int, int)| valid_date(t.0, t.1, t.2) && days_from_civil(t.0, t.1, t.2) == days
}

/// Leap years repeat every 400 years.
proof fn lemma_leap_period(y: int, c: int)
    ensures
        is_leap(y + 400 * c) == is_leap(y),
{
    assert((y + 400 * c) % 4 == y % 4) by {
        vstd::arithmetic::div_mod::lemma_mod_multiples_vanish(100 * c, y, 4);
    }
    assert((y + 400 * c) % 100 == y % 100) by {
        vstd::arithmetic::div_mod::lemma_mod_multiples_vanish(4 * c, y, 100);
    }
    assert((y + 400 * c) % 400 == y % 400) by {
        vstd::arithmetic::div_mod::lemma_mod_multiples_vanish(c, y, 400);
    }
}

proof fn lemma_december(y: int)
    ensures
        days_before_month(y, 12) == year_len(y) - 31,
{
    reveal_with_fuel(days_before_month, 12);
}

/// The civil date `(year, month, day)` that is `days` days after 1970-01-01.
/// Days before 1970-01-01 count as negative.
pub fn civil_from_days(days: i64) -> (r: (i64, i64, i64))
    requires
        days <= i64::MAX - 719_468,
    ensures
        valid_date(r.0 as int, r.1 as int, r.2 as int),
        days_from_civil(r.0 as int, r.1 as int, r.2 as int) == days,
        (r.0 as int, r.1 as int, r.2 as int) == date_of(days as int),
        days >= 0 ==> r.0 >= 1970,
{
    // Whole 400-year cycles from 1970 (floor division), and the days left.
    let (cycles, mut rest): (i64, i64) = if days >= 0 {
        proof {
            vstd::arithmetic::div_mod::lemma_fundamental_div_mod(days as int, 146_097);
        }
        (days / 146_097, days % 146_097)
    } else {
        let n: i64 = -(days + 1);
        proof {
            vstd::arithmetic::div_mod::lemma_fundamental_div_mod(n as int, 146_097);
        }
        (-(n / 146_097) - 1, 146_096 - n % 146_097)
    };
    assert(days == 146_097 * cycles + rest && 0 <= rest < 146_097);
    assert(-63_131_837_319_417 <= cycles <= 63_131_837_319_417);
    let mut year: i64 = 1970 + 400 * cycles;
    proof {
        lemma_cycles(cycles as int);
    }
    let ghost start = year as int;
    let ghost rest0 = rest as int;
    loop
        invariant
            0 <= rest,
            rest0 < 146_097,
            start <= year,
            rest + 365 * (year - start) <= rest0,
            start == 1970 + 400 * cycles,
            -63_131_837_319_417 <= cycles <= 63_131_837_319_417,
            days >= 0 ==> cycles >= 0,
            days_before_year(year as int) + rest == days,
        ensures
            0 <= rest < year_len(year as int),
            start <= year <= start + 400,
            days_before_year(year as int) + rest == days,
        decreases rest,
    {
        // The leap rule repeats every 400 years: decide it on the year's
        // place in its cycle, which is never negative.
        let within: i64 = 1970 + (year - (1970 + 400 * cycles));
        proof {
            lemma_leap_period(within as int, cycles as int);
        }
        let len: i64 = if within % 4 == 0 && (within % 100 != 0 || within % 400 == 0) { 366 } else { 365 };
        if rest < len {
            break;
        }
        proof {
            lemma_next_year(year as int);
        }
        rest = rest - len;
        year = year + 1;
    }
    let mut month: i64 = 1;
    let within: i64 = 1970 + (year - (1970 + 400 * cycles));
    proof {
        lemma_leap_period(within as int, cycles as int);
        lemma_december(year as int);
    }
    let leap = within % 4 == 0 && (within % 100 != 0 || within % 400 == 0);
    loop
        invariant
            1 <= month <= 12,
            0 <= rest,
            rest < year_len(year as int) - days_before_month(year as int, month as int),
            leap == is_leap(year as int),
            days_before_month(year as int, 12) == year_len(year as int) - 31,
            days_before_year(year as int) + days_before_month(year as int, month as int) + rest == days,
        ensures
            1 <= month <= 12,
            0 <= rest < month_len(year as int, month as int),
            days_before_year(year as int) + days_before_month(year as int, month as int) + rest == days,
        decreases 12 - month,
    {
        let len: i64 = if month == 2 {
            if leap { 29 } else { 28 }
        } else if month == 4 || month == 6 || month == 9 || month == 11 {
            30
        } else {
            31
        };
        if rest < len {
            break;
        }
        rest = rest - len;
        month = month + 1;
    }
    proof {
        let t = (year as int, month as int, rest + 1);
        assert(valid_date(t.0, t.1, t.2) && days_from_civil(t.0, t.1, t.2) == days);
        let c = date_of(days as int);
        lemma_one_date_per_day(t.0, t.1, t.2, c.0, c.1, c.2);
    }
    (year, month, rest + 1)
}


/// Appends `n` in decimal, left-padded with zeros to `width` characters.
pub fn push_padded(s: &mut String, n: u64, width: usize)
    ensures
        final(s)@ == old(s)@ + zero_padded(n as nat, width as nat),
{
    let mut digits = String::new();
    push_decimal(&mut digits, n);
    let len = digits.as_str().unicode_len();
    let ghost before = s@;
    if len < width {
        let mut i: usize = len;
        while i < width
            invariant
                len <= i <= width,
                s@ == before + Seq::new((i - len) as nat, |k: int| '0'),
            decreases width - i,
        {
            push_char(s, '0');
            i = i + 1;
            assert(s@ =~= before + Seq::new((i - len) as nat, |k: int| '0'));
        }
    }
    push_str(s, digits.as_str());
    assert(s@ =~= before + zero_padded(n as nat, width as nat));
}

/// "YYYY-MM-DD HH:MM UTC" for these fields.
pub open spec fn stamp(y: int, m: int, d: int, h: int, mi: int) -> Seq<char> {
    zero_padded(y as nat, 4) + "-"@ + zero_padded(m as nat, 2) + "-"@ + zero_padded(d as nat, 2) + " "@
        + zero_padded(h as nat, 2) + ":"@ + zero_padded(mi as nat, 2) + " UTC"@
}

/// "YYYY-MM-DD HH:MM UTC" for a number of seconds since the Unix epoch.
/// Without a time zone database the time is in UTC.
pub fn format_timestamp(secs: u64) -> (r: String)
    ensures
        r@ == stamp(
            date_of((secs / 86_400) as int).0,
            date_of((secs / 86_400) as int).1,
            date_of((secs / 86_400) as int).2,
            ((secs % 86_400) / 3_600) as int,
            ((secs % 3_600) / 60) as int,
        ),
{
    let rest = secs % 86_400;
    let days = (secs / 86_400) as i64;
    let (year, month, day) = civil_from_days(days);
    let hours = rest / 3_600;
    let minutes = rest % 3_600 / 60;
    proof {
        assert(rest % 3_600 == secs % 3_600) by (nonlinear_arith)
            requires
                rest == secs % 86_400,
        ;
    }
    let mut s = String::new();
    push_padded(&mut s, year as u64, 4);
    push_str(&mut s, "-");
    push_padded(&mut s, month as u64, 2);
    push_str(&mut s, "-");
    push_padded(&mut s, day as u64, 2);
    push_str(&mut s, " ");
    push_padded(&mut s, hours, 2);
    push_str(&mut s, ":");
    push_padded(&mut s, minutes, 2);
    push_str(&mut s, " UTC");
    assert(s@ =~= stamp(year as int, month as int, day as int, hours as int, minutes as int));
    s
}

} // verus!
