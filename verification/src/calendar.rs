//! Proleptic Gregorian calendar arithmetic.
//!
//! A calendar date is a triple `(year, month, day)`; an instant's day is a
//! count of days since 1970-01-01 (day 0, negative before 1970). The
//! specification functions give the calendar a closed mathematical form; the
//! executable functions are proved against them, in both directions: from a
//! date to its day number and back.

use vstd::arithmetic::div_mod::{
    lemma_fundamental_div_mod, lemma_fundamental_div_mod_converse, lemma_mod_division_less_than_divisor,
};
use vstd::prelude::*;

verus! {

/// Days from 0001-01-01 to 1970-01-01 in the proleptic Gregorian calendar.
pub const DAYS_TO_EPOCH: i64 = 719162;

/// Years this library can pass to `civil_to_days`; wide enough for every
/// instant an `i64` millisecond timestamp can denote.
pub const YEAR_LO: i64 = -292_500_000;

/// See [`YEAR_LO`].
pub const YEAR_HI: i64 = 292_500_000;

/// Day numbers this library can convert back to a calendar date; wide enough
/// for every instant an `i64` millisecond timestamp can denote.
pub const DAY_LO: i64 = -106_800_000_000;

/// See [`DAY_LO`].
pub const DAY_HI: i64 = 106_800_000_000;

/// A year is a leap year when it is divisible by 4 but not by 100, or
/// divisible by 400 (`%` is the Euclidean remainder, so this also covers
/// negative years).
pub open spec fn is_leap_year(y: int) -> bool {
    (y % 4 == 0 && y % 100 != 0) || y % 400 == 0
}

pub open spec fn days_in_year(y: int) -> int {
    if is_leap_year(y) {
        366
    } else {
        365
    }
}

pub open spec fn days_in_month(y: int, m: int) -> int {
    if m == 2 {
        if is_leap_year(y) {
            29
        } else {
            28
        }
    } else if m == 4 || m == 6 || m == 9 || m == 11 {
        30
    } else {
        31
    }
}

/// Days from the first of January of year `y` to the first of month `m` of
/// the same year.
pub open spec fn days_before_month(y: int, m: int) -> int
    decreases m,
{
    if m <= 1 {
        0
    } else {
        days_before_month(y, m - 1) + days_in_month(y, m - 1)
    }
}

/// Days from 0001-01-01 to the first of January of year `y` (closed form;
/// `/` is Euclidean division, which floors for these positive divisors).
pub open spec fn days_before_year(y: int) -> int {
    365 * (y - 1) + (y - 1) / 4 - (y - 1) / 100 + (y - 1) / 400
}

/// The day number of the calendar date `(y, m, d)`: days since 1970-01-01.
pub open spec fn epoch_days(y: int, m: int, d: int) -> int {
    days_before_year(y) + days_before_month(y, m) + (d - 1) - DAYS_TO_EPOCH
}

pub open spec fn valid_ymd(y: int, m: int, d: int) -> bool {
    1 <= m <= 12 && 1 <= d <= days_in_month(y, m)
}

/// Day of the week of epoch day `z`: 0 = Sunday, ..., 6 = Saturday.
/// Day 0 (1970-01-01) was a Thursday, index 4.
pub open spec fn weekday_of_day(z: int) -> int {
    (z + 4) % 7
}

/// Quotient difference of consecutive numerators: it steps exactly at the
/// multiples of the divisor.
proof fn lemma_div_step(a: int, k: int)
    requires
        k > 0,
    ensures
        a / k == (a - 1) / k + (if a % k == 0 {
            1int
        } else {
            0int
        }),
{
    lemma_fundamental_div_mod(a, k);
    lemma_mod_division_less_than_divisor(a, k);
    let q: int = a / k;
    let r: int = a % k;
    if r == 0 {
        assert(a - 1 == (q - 1) * k + (k - 1)) by (nonlinear_arith)
            requires
                a == k * q + r,
                r == 0,
        ;
        lemma_fundamental_div_mod_converse(a - 1, k, q - 1, k - 1);
    } else {
        assert(a - 1 == q * k + (r - 1)) by (nonlinear_arith)
            requires
                a == k * q + r,
        ;
        lemma_fundamental_div_mod_converse(a - 1, k, q, r - 1);
    }
}

/// A multiple of 400 is a multiple of 100 and of 4; a multiple of 100 is a
/// multiple of 4.
proof fn lemma_divisibility_chain(y: int)
    ensures
        y % 400 == 0 ==> y % 100 == 0 && y % 4 == 0,
        y % 100 == 0 ==> y % 4 == 0,
{
    if y % 400 == 0 {
        lemma_fundamental_div_mod(y, 400);
        assert(y == 400 * (y / 400));
        lemma_fundamental_div_mod_converse(y, 100, 4 * (y / 400), 0);
        lemma_fundamental_div_mod_converse(y, 4, 100 * (y / 400), 0);
    }
    if y % 100 == 0 {
        lemma_fundamental_div_mod(y, 100);
        assert(y == 100 * (y / 100));
        lemma_fundamental_div_mod_converse(y, 4, 25 * (y / 100), 0);
    }
}

/// Stepping `days_before_year` by one year adds exactly that year's length.
pub proof fn lemma_days_before_year_step(y: int)
    ensures
        days_before_year(y + 1) == days_before_year(y) + days_in_year(y),
{
    lemma_div_step(y, 4);
    lemma_div_step(y, 100);
    lemma_div_step(y, 400);
    lemma_divisibility_chain(y);
}

/// `days_before_year` grows by 365 to 366 days per year.
pub proof fn lemma_days_before_year_mono(y1: int, y2: int)
    requires
        y1 <= y2,
    ensures
        days_before_year(y1) + 365 * (y2 - y1) <= days_before_year(y2),
        days_before_year(y2) <= days_before_year(y1) + 366 * (y2 - y1),
    decreases y2 - y1,
{
    if y1 < y2 {
        lemma_days_before_year_mono(y1, y2 - 1);
        lemma_days_before_year_step(y2 - 1);
    }
}

/// `days_before_month` is nondecreasing in the month, and stepping one month
/// adds that month's length.
pub proof fn lemma_days_before_month_mono(y: int, m1: int, m2: int)
    requires
        1 <= m1 <= m2 <= 13,
    ensures
        days_before_month(y, m1) <= days_before_month(y, m2),
        m1 < m2 ==> days_before_month(y, m1) + days_in_month(y, m1) <= days_before_month(y, m2),
    decreases m2 - m1,
{
    if m1 < m2 {
        lemma_days_before_month_mono(y, m1, m2 - 1);
    }
}

/// The twelve months of a year sum to its length.
pub proof fn lemma_days_before_month_full(y: int)
    ensures
        days_before_month(y, 13) == days_in_year(y),
{
    assert(days_before_month(y, 1) == 0);
    assert(days_before_month(y, 2) == 31);
    assert(days_before_month(y, 3) == days_before_month(y, 2) + days_in_month(y, 2));
    assert(days_before_month(y, 4) == days_before_month(y, 3) + 31);
    assert(days_before_month(y, 5) == days_before_month(y, 4) + 30);
    assert(days_before_month(y, 6) == days_before_month(y, 5) + 31);
    assert(days_before_month(y, 7) == days_before_month(y, 6) + 30);
    assert(days_before_month(y, 8) == days_before_month(y, 7) + 31);
    assert(days_before_month(y, 9) == days_before_month(y, 8) + 31);
    assert(days_before_month(y, 10) == days_before_month(y, 9) + 30);
    assert(days_before_month(y, 11) == days_before_month(y, 10) + 31);
    assert(days_before_month(y, 12) == days_before_month(y, 11) + 30);
    assert(days_before_month(y, 13) == days_before_month(y, 12) + 31);
}

/// A valid date's offset inside its year lies between 0 and the year length.
pub proof fn lemma_day_of_year_bounds(y: int, m: int, d: int)
    requires
        valid_ymd(y, m, d),
    ensures
        0 <= days_before_month(y, m) + (d - 1) < days_in_year(y),
{
    lemma_days_before_month_mono(y, 1, m);
    lemma_days_before_month_mono(y, m, 13);
    lemma_days_before_month_full(y);
}

/// Distinct valid dates have distinct day numbers.
pub proof fn lemma_epoch_days_injective(y1: int, m1: int, d1: int, y2: int, m2: int, d2: int)
    requires
        valid_ymd(y1, m1, d1),
        valid_ymd(y2, m2, d2),
        epoch_days(y1, m1, d1) == epoch_days(y2, m2, d2),
    ensures
        y1 == y2 && m1 == m2 && d1 == d2,
{
    lemma_day_of_year_bounds(y1, m1, d1);
    lemma_day_of_year_bounds(y2, m2, d2);
    lemma_days_before_year_step(y1);
    lemma_days_before_year_step(y2);
    if y1 < y2 {
        lemma_days_before_year_mono(y1 + 1, y2);
        assert(false);
    }
    if y2 < y1 {
        lemma_days_before_year_mono(y2 + 1, y1);
        assert(false);
    }
    if m1 < m2 {
        lemma_days_before_month_mono(y1, m1, m2);
        assert(false);
    }
    if m2 < m1 {
        lemma_days_before_month_mono(y1, m2, m1);
        assert(false);
    }
}

/// Euclidean (flooring) division for a positive divisor.
pub fn fdiv(a: i64, k: i64) -> (q: i64)
    requires
        2 <= k,
    ensures
        q == a as int / k as int,
        a >= 0 ==> 0 <= q <= a,
        a < 0 ==> a <= q <= 0,
{
    proof {
        lemma_fundamental_div_mod(a as int, k as int);
        lemma_mod_division_less_than_divisor(a as int, k as int);
        let qq = a as int / k as int;
        let rr = a as int % k as int;
        assert((a >= 0 ==> 0 <= qq <= a) && (a < 0 ==> a <= qq <= 0)) by (nonlinear_arith)
            requires
                k >= 2,
                a == k * qq + rr,
                0 <= rr < k,
        ;
    }
    a.checked_div_euclid(k).unwrap()
}

/// Euclidean remainder for a positive divisor.
pub fn umod(a: i64, k: i64) -> (r: i64)
    requires
        2 <= k,
    ensures
        r == a as int % k as int,
        0 <= r < k,
{
    proof {
        lemma_mod_division_less_than_divisor(a as int, k as int);
    }
    a.checked_rem_euclid(k).unwrap()
}

pub fn leap_year(y: i64) -> (b: bool)
    ensures
        b == is_leap_year(y as int),
{
    (umod(y, 4) == 0 && umod(y, 100) != 0) || umod(y, 400) == 0
}

pub fn month_length(y: i64, m: i64) -> (n: i64)
    requires
        1 <= m <= 12,
    ensures
        n == days_in_month(y as int, m as int),
        28 <= n <= 31,
{
    if m == 2 {
        if leap_year(y) {
            29
        } else {
            28
        }
    } else if m == 4 || m == 6 || m == 9 || m == 11 {
        30
    } else {
        31
    }
}

/// Day number of the calendar date `(y, m, d)`.
pub fn civil_to_days(y: i64, m: i64, d: i64) -> (z: i64)
    requires
        YEAR_LO <= y <= YEAR_HI,
        1 <= m <= 12,
        1 <= d <= 31,
    ensures
        z == epoch_days(y as int, m as int, d as int),
{
    let yy = y - 1;
    let base = 365 * yy + fdiv(yy, 4) - fdiv(yy, 100) + fdiv(yy, 400);
    assert(base == days_before_year(y as int));
    let mut acc: i64 = 0;
    let mut mm: i64 = 1;
    while mm < m
        invariant
            1 <= mm <= m <= 12,
            acc == days_before_month(y as int, mm as int),
            0 <= acc <= 31 * (mm - 1),
        decreases m - mm,
    {
        acc = acc + month_length(y, mm);
        mm = mm + 1;
    }
    base + acc + (d - 1) - DAYS_TO_EPOCH
}

/// Calendar date of epoch day `z`: the unique valid date whose day number is
/// `z`.
pub fn days_to_civil(z: i64) -> (r: (i64, i64, i64))
    requires
        DAY_LO <= z <= DAY_HI,
    ensures
        valid_ymd(r.0 as int, r.1 as int, r.2 as int),
        epoch_days(r.0 as int, r.1 as int, r.2 as int) == z,
        YEAR_LO < r.0 < YEAR_HI,
{
    let mut y: i64 = 1970 + fdiv(z, 365) - 2;
    if y < YEAR_LO + 1 {
        y = YEAR_LO + 1;
    }
    if y > YEAR_HI - 1 {
        y = YEAR_HI - 1;
    }
    proof {
        assert(epoch_days(YEAR_LO as int + 1, 1, 1) < DAY_LO);
        assert(epoch_days(YEAR_HI as int - 1, 1, 1) > DAY_HI);
    }
    let mut ys = civil_to_days(y, 1, 1);
    while ys > z
        invariant
            YEAR_LO < y < YEAR_HI,
            ys == epoch_days(y as int, 1, 1),
            DAY_LO <= z <= DAY_HI,
            epoch_days(YEAR_LO as int + 1, 1, 1) < DAY_LO,
        decreases ys - z + 366,
    {
        proof {
            if y - 1 <= YEAR_LO {
                lemma_days_before_year_mono(y as int, YEAR_LO as int + 1);
                assert(false);
            }
            lemma_days_before_year_step(y as int - 1);
        }
        y = y - 1;
        ys = civil_to_days(y, 1, 1);
    }
    let mut ys_next = civil_to_days(y + 1, 1, 1);
    proof {
        lemma_days_before_year_step(y as int);
    }
    while ys_next <= z
        invariant
            YEAR_LO < y < YEAR_HI,
            ys == epoch_days(y as int, 1, 1),
            ys_next == epoch_days(y as int + 1, 1, 1),
            ys <= z,
            DAY_LO <= z <= DAY_HI,
            epoch_days(YEAR_HI as int - 1, 1, 1) > DAY_HI,
        decreases z - ys,
    {
        proof {
            if y + 1 >= YEAR_HI {
                lemma_days_before_year_mono(YEAR_HI as int - 1, y as int + 1);
                assert(false);
            }
            lemma_days_before_year_step(y as int + 1);
        }
        y = y + 1;
        ys = ys_next;
        ys_next = civil_to_days(y + 1, 1, 1);
        proof {
            lemma_days_before_year_step(y as int);
        }
    }
    let doy = z - ys;
    proof {
        lemma_days_before_year_step(y as int);
        lemma_days_before_month_full(y as int);
    }
    assert(0 <= doy < days_in_year(y as int));
    let mut m: i64 = 1;
    let mut acc: i64 = 0;
    let mut ml = month_length(y, 1);
    while m < 12 && acc + ml <= doy
        invariant
            1 <= m <= 12,
            acc == days_before_month(y as int, m as int),
            ml == days_in_month(y as int, m as int),
            0 <= acc <= doy,
            doy < days_in_year(y as int),
            days_before_month(y as int, 13) == days_in_year(y as int),
        decreases 12 - m,
    {
        acc = acc + ml;
        m = m + 1;
        ml = month_length(y, m);
    }
    proof {
        if m == 12 {
            lemma_days_before_month_mono(y as int, 12, 13);
            assert(days_before_month(y as int, 13) == days_before_month(y as int, 12) + 31);
        }
    }
    let d = doy - acc + 1;
    assert(valid_ymd(y as int, m as int, d as int));
    (y, m, d)
}

/// Day of the week of epoch day `z`.
pub fn weekday_number(z: i64) -> (w: i64)
    requires
        DAY_LO <= z <= DAY_HI,
    ensures
        w == weekday_of_day(z as int),
        0 <= w <= 6,
{
    umod(z + 4, 7)
}

} // verus!
