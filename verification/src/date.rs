//! A verified proleptic-Gregorian calendar and the release-week window.
//!
//! Dates are plain year/month/day triples; the mathematical model of a date
//! is its day index, the number of days since the first of January of year 1.
//! On top of the calendar sits `week_range`: the Sunday-to-Saturday week that
//! ended most recently, three calendar months before a reference date.

use vstd::prelude::*;
use vstd::arithmetic::div_mod::{
    lemma_div_is_ordered_by_denominator, lemma_fundamental_div_mod,
    lemma_fundamental_div_mod_converse_div, lemma_fundamental_div_mod_converse_mod,
    lemma_mod_multiples_basic,
};

use crate::errors::Error;
use crate::text::{push_char, spec_dec_nat, push_dec_u64};

verus! {

/// A calendar date; the representable range is year 1 through year 9999.
#[derive(Clone, Copy, Debug, PartialEq, Eq, Structural)]
pub struct Date {
    pub year: i32,
    pub month: u8,
    pub day: u8,
}

/// A day of the week.
#[derive(Clone, Copy, Debug, PartialEq, Eq, Structural)]
pub enum Weekday {
    Mon,
    Tue,
    Wed,
    Thu,
    Fri,
    Sat,
    Sun,
}

pub open spec fn spec_is_leap_year(y: int) -> bool {
    (y % 4 == 0 && y % 100 != 0) || y % 400 == 0
}

pub open spec fn spec_days_in_month(y: int, m: int) -> int {
    if m == 2 {
        if spec_is_leap_year(y) {
            29
        } else {
            28
        }
    } else if m == 4 || m == 6 || m == 9 || m == 11 {
        30
    } else {
        31
    }
}

impl Date {
    /// A well-formed date: each field within its calendar range.
    pub open spec fn wf(self) -> bool {
        &&& 1 <= self.year <= 9999
        &&& 1 <= self.month <= 12
        &&& 1 <= self.day <= spec_days_in_month(self.year as int, self.month as int)
    }
}

/// The number of leap years in years 1 through `n`.
pub open spec fn spec_leap_count(n: int) -> int {
    n / 4 - n / 100 + n / 400
}

/// The number of days in years 1 through `y - 1`.
pub open spec fn spec_days_before_year(y: int) -> int {
    365 * (y - 1) + spec_leap_count(y - 1)
}

/// The number of days of year `y` that lie before month `m`.
pub open spec fn spec_days_before_month(y: int, m: int) -> int {
    let l: int = if spec_is_leap_year(y) {
        1
    } else {
        0
    };
    if m == 1 {
        0
    } else if m == 2 {
        31
    } else if m == 3 {
        59 + l
    } else if m == 4 {
        90 + l
    } else if m == 5 {
        120 + l
    } else if m == 6 {
        151 + l
    } else if m == 7 {
        181 + l
    } else if m == 8 {
        212 + l
    } else if m == 9 {
        243 + l
    } else if m == 10 {
        273 + l
    } else if m == 11 {
        304 + l
    } else {
        334 + l
    }
}

/// The day index of a date: the number of days since the first of January
/// of year 1.  It is the mathematical model of a `Date`.
pub open spec fn spec_day_index(d: Date) -> int {
    spec_days_before_year(d.year as int) + spec_days_before_month(d.year as int, d.month as int)
        + d.day - 1
}

/// The weekday of a day index.  Day index 0 is a Monday.
pub open spec fn spec_weekday_of_index(i: int) -> Weekday {
    let r = i % 7;
    if r == 0 {
        Weekday::Mon
    } else if r == 1 {
        Weekday::Tue
    } else if r == 2 {
        Weekday::Wed
    } else if r == 3 {
        Weekday::Thu
    } else if r == 4 {
        Weekday::Fri
    } else if r == 5 {
        Weekday::Sat
    } else {
        Weekday::Sun
    }
}

pub open spec fn spec_weekday(d: Date) -> Weekday {
    spec_weekday_of_index(spec_day_index(d))
}

fn is_leap_year(y: i32) -> (r: bool)
    requires
        y >= 1,
    ensures
        r == spec_is_leap_year(y as int),
{
    (y % 4 == 0 && y % 100 != 0) || y % 400 == 0
}

pub fn days_in_month(y: i32, m: u8) -> (r: u8)
    requires
        y >= 1,
    ensures
        r == spec_days_in_month(y as int, m as int),
{
    if m == 2 {
        if is_leap_year(y) {
            29
        } else {
            28
        }
    } else if m == 4 || m == 6 || m == 9 || m == 11 {
        30
    } else {
        31
    }
}

/// The day index fits comfortably in a `u32` over the whole range.
pub proof fn lemma_day_index_bounds(d: Date)
    requires
        d.wf(),
    ensures
        0 <= spec_day_index(d) < 3_660_000,
{
    let y = d.year as int;
    lemma_div_is_ordered_by_denominator(y - 1, 4, 100);
    lemma_div_is_ordered_by_denominator(y - 1, 100, 400);
    assert((y - 1) / 4 >= 0) by {
        vstd::arithmetic::div_mod::lemma_div_pos_is_pos(y - 1, 4);
    }
    assert((y - 1) / 4 <= y - 1) by {
        vstd::arithmetic::div_mod::lemma_div_nonincreasing(y - 1, 4);
    }
    assert((y - 1) / 400 >= 0) by {
        vstd::arithmetic::div_mod::lemma_div_pos_is_pos(y - 1, 400);
    }
}

/// Computes the day index of a well-formed date.
pub fn day_index(d: &Date) -> (r: u32)
    requires
        d.wf(),
    ensures
        r == spec_day_index(*d),
{
    proof {
        lemma_day_index_bounds(*d);
        lemma_div_is_ordered_by_denominator((d.year - 1) as int, 4, 100);
        vstd::arithmetic::div_mod::lemma_div_pos_is_pos((d.year - 1) as int, 4);
        vstd::arithmetic::div_mod::lemma_div_pos_is_pos((d.year - 1) as int, 100);
        vstd::arithmetic::div_mod::lemma_div_pos_is_pos((d.year - 1) as int, 400);
        vstd::arithmetic::div_mod::lemma_div_nonincreasing((d.year - 1) as int, 4);
    }
    let y: u32 = (d.year as u32) - 1;
    let leaps: u32 = y / 4 - y / 100 + y / 400;
    let l: u32 = if is_leap_year(d.year) {
        1
    } else {
        0
    };
    let m = d.month;
    let before_month: u32 = if m == 1 {
        0
    } else if m == 2 {
        31
    } else if m == 3 {
        59 + l
    } else if m == 4 {
        90 + l
    } else if m == 5 {
        120 + l
    } else if m == 6 {
        151 + l
    } else if m == 7 {
        181 + l
    } else if m == 8 {
        212 + l
    } else if m == 9 {
        243 + l
    } else if m == 10 {
        273 + l
    } else if m == 11 {
        304 + l
    } else {
        334 + l
    };
    365 * y + leaps + before_month + (d.day as u32) - 1
}

/// Computes the weekday of a well-formed date.
pub fn weekday(d: &Date) -> (r: Weekday)
    requires
        d.wf(),
    ensures
        r == spec_weekday(*d),
{
    let idx = day_index(d);
    let rem = idx % 7;
    if rem == 0 {
        Weekday::Mon
    } else if rem == 1 {
        Weekday::Tue
    } else if rem == 2 {
        Weekday::Wed
    } else if rem == 3 {
        Weekday::Thu
    } else if rem == 4 {
        Weekday::Fri
    } else if rem == 5 {
        Weekday::Sat
    } else {
        Weekday::Sun
    }
}

/// The date one day earlier.  At the first day of the calendar the result
/// is not well-formed; callers guard with `spec_day_index(d) >= 1`.
pub open spec fn spec_prev_day(d: Date) -> Date {
    if d.day > 1 {
        Date { year: d.year, month: d.month, day: (d.day - 1) as u8 }
    } else if d.month > 1 {
        Date {
            year: d.year,
            month: (d.month - 1) as u8,
            day: spec_days_in_month(d.year as int, d.month - 1) as u8,
        }
    } else {
        Date { year: (d.year - 1) as i32, month: 12, day: 31 }
    }
}

/// A quotient steps down by one exactly at the multiples of the divisor.
proof fn lemma_div_step(n: int, k: int)
    requires
        n >= 1,
        k >= 1,
    ensures
        n / k - (n - 1) / k == if n % k == 0 {
            1int
        } else {
            0int
        },
{
    lemma_fundamental_div_mod(n, k);
    vstd::arithmetic::div_mod::lemma_mod_division_less_than_divisor(n, k);
    let q = n / k;
    let r = n % k;
    if r == 0 {
        if k == 1 {
            lemma_fundamental_div_mod_converse_div(n - 1, k, n - 1, 0);
        } else {
            assert(n - 1 == (q - 1) * k + (k - 1)) by (nonlinear_arith)
                requires
                    n == k * q + r,
                    r == 0,
            ;
            lemma_fundamental_div_mod_converse_div(n - 1, k, q - 1, k - 1);
        }
    } else {
        assert(n - 1 == q * k + (r - 1)) by (nonlinear_arith)
            requires
                n == k * q + r,
        ;
        lemma_fundamental_div_mod_converse_div(n - 1, k, q, r - 1);
    }
}

/// If 100 divides `n` then 4 divides `n`; if 400 divides `n` then 100 does.
proof fn lemma_divisibility_chain(n: int)
    requires
        n >= 0,
    ensures
        n % 100 == 0 ==> n % 4 == 0,
        n % 400 == 0 ==> n % 100 == 0,
{
    if n % 100 == 0 {
        lemma_fundamental_div_mod(n, 100);
        let q = n / 100;
        assert(n == 25 * q * 4) by (nonlinear_arith)
            requires
                n == q * 100,
        ;
        lemma_mod_multiples_basic(25 * q, 4);
    }
    if n % 400 == 0 {
        lemma_fundamental_div_mod(n, 400);
        let q = n / 400;
        assert(n == 4 * q * 100) by (nonlinear_arith)
            requires
                n == q * 400,
        ;
        lemma_mod_multiples_basic(4 * q, 100);
    }
}

/// Stepping one year forward adds 365 days, or 366 across a leap year.
proof fn lemma_leap_count_step(n: int)
    requires
        n >= 1,
    ensures
        spec_leap_count(n) == spec_leap_count(n - 1) + if spec_is_leap_year(n) {
            1int
        } else {
            0int
        },
{
    lemma_div_step(n, 4);
    lemma_div_step(n, 100);
    lemma_div_step(n, 400);
    lemma_divisibility_chain(n);
}

/// The day index of the previous day is one less.
pub proof fn lemma_prev_day_index(d: Date)
    requires
        d.wf(),
        spec_day_index(d) >= 1,
    ensures
        spec_prev_day(d).wf(),
        spec_day_index(spec_prev_day(d)) == spec_day_index(d) - 1,
{
    let y = d.year as int;
    if d.day > 1 {
    } else if d.month > 1 {
    } else {
        // The first of January: stepping back crosses a year boundary.
        assert(y >= 2) by {
            if y == 1 {
                assert(spec_day_index(d) == 0);
            }
        }
        lemma_leap_count_step(y - 1);
    }
}

/// Steps a date backward one day, or reports that the calendar ends.
pub fn prev_day(d: &Date) -> (r: Option<Date>)
    requires
        d.wf(),
    ensures
        match r {
            Some(p) => spec_day_index(*d) >= 1 && p == spec_prev_day(*d) && p.wf()
                && spec_day_index(p) == spec_day_index(*d) - 1,
            None => spec_day_index(*d) == 0,
        },
{
    proof {
        lemma_day_index_bounds(*d);
    }
    if d.day > 1 {
        proof {
            lemma_prev_day_index(*d);
        }
        Some(Date { year: d.year, month: d.month, day: d.day - 1 })
    } else if d.month > 1 {
        proof {
            lemma_prev_day_index(*d);
        }
        Some(Date { year: d.year, month: d.month - 1, day: days_in_month(d.year, d.month - 1) })
    } else if d.year > 1 {
        proof {
            lemma_prev_day_index(*d);
        }
        Some(Date { year: d.year - 1, month: 12, day: 31 })
    } else {
        None
    }
}

/// The date `n` days earlier, by repeated single steps.
pub open spec fn spec_step_back(d: Date, n: nat) -> Date
    decreases n,
{
    if n == 0 {
        d
    } else {
        spec_prev_day(spec_step_back(d, (n - 1) as nat))
    }
}

/// Stepping back `n` days lowers the day index by `n`.
pub proof fn lemma_step_back_index(d: Date, n: nat)
    requires
        d.wf(),
        spec_day_index(d) >= n,
    ensures
        spec_step_back(d, n).wf(),
        spec_day_index(spec_step_back(d, n)) == spec_day_index(d) - n,
    decreases n,
{
    if n > 0 {
        lemma_step_back_index(d, (n - 1) as nat);
        lemma_prev_day_index(spec_step_back(d, (n - 1) as nat));
    }
}

/// The date a number of calendar months earlier.  The day of the month is
/// clamped when the target month is shorter; `None` when the target lies
/// before the calendar begins.
pub open spec fn spec_sub_months(d: Date, n: nat) -> Option<Date> {
    let total = (d.year - 1) * 12 + d.month - 1;
    if total < n {
        None
    } else {
        let t = total - n;
        let y = t / 12 + 1;
        let m = t % 12 + 1;
        let dim = spec_days_in_month(y, m);
        Some(
            Date {
                year: y as i32,
                month: m as u8,
                day: if d.day <= dim {
                    d.day
                } else {
                    dim as u8
                },
            },
        )
    }
}

/// Subtracts `n` calendar months, clamping the day of the month.
pub fn sub_months(d: &Date, n: u32) -> (r: Option<Date>)
    requires
        d.wf(),
    ensures
        r == spec_sub_months(*d, n as nat),
        match r {
            Some(p) => p.wf(),
            None => true,
        },
{
    let total: u32 = ((d.year as u32) - 1) * 12 + (d.month as u32) - 1;
    if total < n {
        assert(spec_sub_months(*d, n as nat) is None);
        None
    } else {
        let t: u32 = total - n;
        let y: i32 = (t / 12 + 1) as i32;
        let m: u8 = (t % 12 + 1) as u8;
        proof {
            assert(t / 12 <= total / 12) by {
                vstd::arithmetic::div_mod::lemma_div_is_ordered(t as int, total as int, 12);
            }
            assert(total / 12 <= 9998) by {
                lemma_fundamental_div_mod(total as int, 12);
            }
            assert(0 <= t % 12 < 12);
        }
        let dim: u8 = days_in_month(y, m);
        let day: u8 = if d.day <= dim {
            d.day
        } else {
            dim
        };
        Some(Date { year: y, month: m, day })
    }
}

/// How many days the window computation walks back from `d` to reach the
/// nearest Sunday at or before `d`.
pub open spec fn spec_walk_count(d: Date) -> nat {
    let r = spec_day_index(d) % 7;
    if r == 6 {
        0nat
    } else {
        (r + 1) as nat
    }
}

/// Within one week of backward steps, only the step count given by
/// `spec_walk_count` lands on a Sunday.
proof fn lemma_walk_count(d: Date, steps: nat)
    requires
        d.wf(),
        steps <= 6,
        spec_day_index(d) >= steps,
    ensures
        spec_weekday_of_index(spec_day_index(d) - steps) == Weekday::Sun <==> steps
            == spec_walk_count(d),
{
    let idx = spec_day_index(d);
    lemma_fundamental_div_mod(idx, 7);
    let q = idx / 7;
    let r = idx % 7;
    if steps <= r {
        lemma_fundamental_div_mod_converse_mod(idx - steps, 7, q, r - steps);
    } else {
        assert(q >= 1) by {
            if q == 0 {
                assert(idx == r < steps);
            }
        }
        assert(idx - steps == (q - 1) * 7 + (7 + r - steps)) by {
            assert((q - 1) * 7 == q * 7 - 7) by (nonlinear_arith);
        }
        lemma_fundamental_div_mod_converse_mod(idx - steps, 7, q - 1, 7 + r - steps);
    }
}

/// The window around the most recently completed Sunday-to-Saturday week,
/// three calendar months before the reference date: `None` when the walk
/// would leave the representable calendar.
pub open spec fn spec_week_range(d: Date) -> Option<(Date, Date)> {
    match spec_sub_months(d, 3) {
        None => None,
        Some(m) => {
            let w = spec_walk_count(m);
            if spec_day_index(m) - w < 7 {
                None
            } else {
                let sun = spec_step_back(m, w);
                Some((spec_step_back(sun, 7), spec_prev_day(sun)))
            }
        },
    }
}

/// Computes the release-week window for a reference date.
///
/// The window is the last full Sunday-to-Saturday week that ended at or
/// before the date three calendar months prior to `time`: first the day is
/// moved three months back, then it walks backward to the nearest Sunday,
/// and the window is the seven days that precede that Sunday.
pub fn week_range(time: &Date) -> (r: Result<(Date, Date), Error>)
    requires
        time.wf(),
    ensures
        match r {
            Ok((start, end)) => {
                &&& spec_week_range(*time) == Some((start, end))
                &&& start.wf()
                &&& end.wf()
                &&& spec_weekday(start) == Weekday::Sun
                &&& spec_day_index(end) == spec_day_index(start) + 6
            },
            Err(e) => e == Error::DateArithmetic && spec_week_range(*time) is None,
        },
{
    let m = match sub_months(time, 3) {
        Some(m) => m,
        None => {
            return Err(Error::DateArithmetic);
        },
    };
    proof {
        lemma_day_index_bounds(m);
    }
    let ghost w = spec_walk_count(m);

    let mut date = m;
    let mut steps: u32 = 0;
    while weekday(&date) != Weekday::Sun
        invariant
            time.wf(),
            spec_sub_months(*time, 3) == Some(m),
            w == spec_walk_count(m),
            m.wf(),
            date.wf(),
            steps <= w <= 6,
            spec_day_index(m) >= steps,
            date == spec_step_back(m, steps as nat),
            spec_day_index(date) == spec_day_index(m) - steps,
        decreases 7 - steps,
    {
        proof {
            lemma_walk_count(m, steps as nat);
        }
        date = match prev_day(&date) {
            Some(p) => p,
            None => {
                // The calendar ends before a Sunday is reached.
                assert(spec_day_index(m) - w < 7);
                return Err(Error::DateArithmetic);
            },
        };
        steps = steps + 1;
        proof {
            lemma_step_back_index(m, steps as nat);
        }
    }
    proof {
        lemma_walk_count(m, steps as nat);
        assert(steps == w);
    }
    let sunday = date;

    let end = match prev_day(&sunday) {
        Some(p) => p,
        None => {
            assert(spec_day_index(m) - w < 7);
            return Err(Error::DateArithmetic);
        },
    };

    let mut start = sunday;
    let mut k: u32 = 0;
    while k < 7
        invariant
            time.wf(),
            spec_sub_months(*time, 3) == Some(m),
            w == spec_walk_count(m),
            m.wf(),
            sunday.wf(),
            start.wf(),
            k <= 7,
            sunday == spec_step_back(m, w),
            spec_day_index(sunday) == spec_day_index(m) - w,
            spec_day_index(sunday) >= 1,
            start == spec_step_back(sunday, k as nat),
            spec_day_index(start) == spec_day_index(sunday) - k,
        decreases 7 - k,
    {
        start = match prev_day(&start) {
            Some(p) => p,
            None => {
                assert(spec_day_index(sunday) == k < 7);
                return Err(Error::DateArithmetic);
            },
        };
        k = k + 1;
    }
    proof {
        assert(spec_day_index(sunday) >= 7);
        lemma_step_back_index(sunday, 7);
        assert(spec_weekday(start) == Weekday::Sun) by {
            let i = spec_day_index(sunday);
            lemma_fundamental_div_mod(i, 7);
            assert(i - 7 == (i / 7 - 1) * 7 + i % 7) by {
                assert((i / 7 - 1) * 7 == (i / 7) * 7 - 7) by (nonlinear_arith);
            }
            lemma_fundamental_div_mod_converse_mod(i - 7, 7, i / 7 - 1, i % 7);
        }
    }
    Ok((start, end))
}

/// The window depends on the reference date alone: equal inputs give
/// equal windows.
pub proof fn lemma_week_range_deterministic(d1: Date, d2: Date)
    requires
        d1 == d2,
    ensures
        spec_week_range(d1) == spec_week_range(d2),
{
}

/// The rendering of a number padded with zeros to two digits.
pub open spec fn spec_pad2(n: nat) -> Seq<char> {
    if n < 10 {
        seq!['0'] + spec_dec_nat(n)
    } else {
        spec_dec_nat(n)
    }
}

/// The rendering of a number padded with zeros to four digits.
pub open spec fn spec_pad4(n: nat) -> Seq<char> {
    if n < 10 {
        seq!['0', '0', '0'] + spec_dec_nat(n)
    } else if n < 100 {
        seq!['0', '0'] + spec_dec_nat(n)
    } else if n < 1000 {
        seq!['0'] + spec_dec_nat(n)
    } else {
        spec_dec_nat(n)
    }
}

/// The ISO rendering of a date: zero-padded year, month and day with
/// hyphens between them.
pub open spec fn spec_date_str(d: Date) -> Seq<char> {
    spec_pad4(d.year as nat) + seq!['-'] + spec_pad2(d.month as nat) + seq!['-'] + spec_pad2(
        d.day as nat,
    )
}

fn push_pad2(s: &mut String, n: u64)
    ensures
        final(s)@ == old(s)@ + spec_pad2(n as nat),
{
    if n < 10 {
        push_char(s, '0');
    }
    push_dec_u64(s, n);
    assert(s@ =~= old(s)@ + spec_pad2(n as nat));
}

fn push_pad4(s: &mut String, n: u64)
    ensures
        final(s)@ == old(s)@ + spec_pad4(n as nat),
{
    if n < 10 {
        push_char(s, '0');
        push_char(s, '0');
        push_char(s, '0');
    } else if n < 100 {
        push_char(s, '0');
        push_char(s, '0');
    } else if n < 1000 {
        push_char(s, '0');
    }
    push_dec_u64(s, n);
    assert(s@ =~= old(s)@ + spec_pad4(n as nat));
}

/// Appends the ISO rendering of a date to `s`.
pub fn push_date(s: &mut String, d: &Date)
    requires
        d.wf(),
    ensures
        final(s)@ == old(s)@ + spec_date_str(*d),
{
    push_pad4(s, d.year as u64);
    push_char(s, '-');
    push_pad2(s, d.month as u64);
    push_char(s, '-');
    push_pad2(s, d.day as u64);
    assert(s@ =~= old(s)@ + spec_date_str(*d));
}

} // verus!

