//! Maps a date-like string onto the timeline's continuous axis.
//!
//! The axis counts seconds since 1970-01-01T00:00:00; one day is 86400
//! seconds, so the classical "epoch day" coordinate of a point on the axis is
//! its value divided by 86400.  Two shapes of input are accepted: a calendar
//! date `YYYY-MM-DD`, and a combined date-time `YYYY-MM-DDTHH:MM:SS` whose
//! trailing zone or offset data, if any, is ignored.  Anything else yields
//! `None`, never a panic: callers exclude such entities from layout.

use vstd::prelude::*;
use vstd::string::StrSliceExecFns;
use vstd::arithmetic::div_mod::{
    lemma_fundamental_div_mod, lemma_fundamental_div_mod_converse_div,
    lemma_fundamental_div_mod_converse_mod,
};

verus! {

/// Every coordinate the parser can produce is strictly below this bound
/// (in absolute value), which keeps all later pixel arithmetic in range.
pub const COORD_BOUND: i64 = 300_000_000_000;

// ---------------------------------------------------------------------------
// Calendar arithmetic (proleptic Gregorian, years 0 through 9999)
// ---------------------------------------------------------------------------

pub open spec fn is_leap_year(y: int) -> bool {
    (y % 4 == 0 && y % 100 != 0) || y % 400 == 0
}

/// How many leap years lie in `[0, y)`.
pub open spec fn leap_years_before(y: int) -> int {
    (y + 3) / 4 - (y + 99) / 100 + (y + 399) / 400
}

/// Days from 0000-01-01 up to `y`-01-01.
pub open spec fn days_before_year(y: int) -> int {
    365 * y + leap_years_before(y)
}

pub open spec fn days_in_month(m: int, leap: bool) -> int {
    if m == 2 {
        if leap { 29 } else { 28 }
    } else if m == 4 || m == 6 || m == 9 || m == 11 {
        30
    } else {
        31
    }
}

/// Days from the start of the year up to the first of month `m`.
pub open spec fn days_before_month(m: int, leap: bool) -> int {
    let base: int = if m == 1 { 0 }
        else if m == 2 { 31 }
        else if m == 3 { 59 }
        else if m == 4 { 90 }
        else if m == 5 { 120 }
        else if m == 6 { 151 }
        else if m == 7 { 181 }
        else if m == 8 { 212 }
        else if m == 9 { 243 }
        else if m == 10 { 273 }
        else if m == 11 { 304 }
        else { 334 };
    base + if m > 2 && leap { 1int } else { 0int }
}

pub open spec fn valid_ymd(y: int, m: int, d: int) -> bool {
    &&& 0 <= y <= 9999
    &&& 1 <= m <= 12
    &&& 1 <= d <= days_in_month(m, is_leap_year(y))
}

/// Days from 0000-01-01 up to 1970-01-01.
pub open spec fn epoch_shift() -> int {
    719528
}

/// The epoch-day number of a calendar date: days since 1970-01-01,
/// negative for earlier dates.
pub open spec fn epoch_day(y: int, m: int, d: int) -> int {
    days_before_year(y) + days_before_month(m, is_leap_year(y)) + (d - 1) - epoch_shift()
}

// ---------------------------------------------------------------------------
// Monotonicity of the day count
// ---------------------------------------------------------------------------

/// For a non-negative `n` and positive `k`: adding `k` bumps the quotient by
/// one, while adding `k - 1` bumps it exactly when `n` is no multiple of `k`.
proof fn lemma_div_bump(n: int, k: int)
    requires
        n >= 0,
        k > 0,
    ensures
        (n + k) / k == n / k + 1,
        (n + k - 1) / k == n / k + if n % k == 0 { 0int } else { 1int },
{
    lemma_fundamental_div_mod(n, k);
    let q = n / k;
    let r = n % k;
    assert(n + k == (q + 1) * k + r) by (nonlinear_arith)
        requires n == k * q + r;
    lemma_fundamental_div_mod_converse_div(n + k, k, q + 1, r);
    if r == 0 {
        assert(n + k - 1 == q * k + (k - 1)) by (nonlinear_arith)
            requires n == k * q + r, r == 0;
        lemma_fundamental_div_mod_converse_div(n + k - 1, k, q, k - 1);
    } else {
        assert(n + k - 1 == (q + 1) * k + (r - 1)) by (nonlinear_arith)
            requires n == k * q + r;
        lemma_fundamental_div_mod_converse_div(n + k - 1, k, q + 1, r - 1);
    }
}

/// A multiple of 400 is a multiple of 100; a multiple of 100 is one of 4.
proof fn lemma_mod_divisor_chain(y: int)
    requires
        y >= 0,
    ensures
        y % 400 == 0 ==> y % 100 == 0,
        y % 100 == 0 ==> y % 4 == 0,
{
    if y % 400 == 0 {
        lemma_fundamental_div_mod(y, 400);
        assert(y == (4 * (y / 400)) * 100 + 0) by (nonlinear_arith)
            requires y == 400 * (y / 400) + 0;
        lemma_fundamental_div_mod_converse_mod(y, 100, 4 * (y / 400), 0);
    }
    if y % 100 == 0 {
        lemma_fundamental_div_mod(y, 100);
        assert(y == (25 * (y / 100)) * 4 + 0) by (nonlinear_arith)
            requires y == 100 * (y / 100) + 0;
        lemma_fundamental_div_mod_converse_mod(y, 4, 25 * (y / 100), 0);
    }
}

/// One year advances the day count by exactly the year's length.
proof fn lemma_days_before_year_step(y: int)
    requires
        y >= 0,
    ensures
        days_before_year(y + 1) == days_before_year(y)
            + if is_leap_year(y) { 366int } else { 365int },
{
    lemma_div_bump(y, 4);
    lemma_div_bump(y, 100);
    lemma_div_bump(y, 400);
    lemma_mod_divisor_chain(y);
}

/// The day count never decreases as years advance, and advances by at least
/// 365 days per year.
proof fn lemma_days_before_year_le(a: int, b: int)
    requires
        0 <= a <= b,
    ensures
        days_before_year(a) + 365 * (b - a) <= days_before_year(b),
    decreases b - a,
{
    if a < b {
        lemma_days_before_year_le(a, b - 1);
        lemma_days_before_year_step(b - 1);
    }
}

/// Within one year, a later (month, day) pair has a strictly larger day
/// number, and every day number stays below the year's length.
proof fn lemma_day_of_year_bounds(m: int, d: int, leap: bool)
    requires
        1 <= m <= 12,
        1 <= d <= days_in_month(m, leap),
    ensures
        0 <= days_before_month(m, leap) + (d - 1),
        days_before_month(m, leap) + (d - 1) < if leap { 366int } else { 365int },
{
}

/// Strict monotonicity of the epoch-day number over calendar order.
pub proof fn lemma_epoch_day_monotonic(y1: int, m1: int, d1: int, y2: int, m2: int, d2: int)
    requires
        valid_ymd(y1, m1, d1),
        valid_ymd(y2, m2, d2),
        (y1, m1, d1) != (y2, m2, d2),
        y1 < y2 || (y1 == y2 && (m1 < m2 || (m1 == m2 && d1 < d2))),
    ensures
        epoch_day(y1, m1, d1) < epoch_day(y2, m2, d2),
{
    if y1 == y2 {
        // same year: compare day-of-year offsets directly
        assert(days_before_month(m1, is_leap_year(y1)) + (d1 - 1)
            < days_before_month(m2, is_leap_year(y2)) + (d2 - 1));
    } else {
        let leap1 = is_leap_year(y1);
        lemma_day_of_year_bounds(m1, d1, leap1);
        lemma_day_of_year_bounds(m2, d2, is_leap_year(y2));
        lemma_days_before_year_step(y1);
        lemma_days_before_year_le(y1 + 1, y2);
    }
}

// ---------------------------------------------------------------------------
// The accepted grammar, over character sequences
// ---------------------------------------------------------------------------

pub open spec fn is_digit(c: char) -> bool {
    48 <= c as u32 <= 57
}

pub open spec fn digit_val(c: char) -> int {
    c as u32 - 48
}

/// The two-digit number written at positions `i`, `i + 1`.
pub open spec fn num2(s: Seq<char>, i: int) -> int {
    10 * digit_val(s[i]) + digit_val(s[i + 1])
}

/// The four-digit number written at positions `i` .. `i + 3`.
pub open spec fn num4(s: Seq<char>, i: int) -> int {
    1000 * digit_val(s[i]) + 100 * digit_val(s[i + 1]) + 10 * digit_val(s[i + 2])
        + digit_val(s[i + 3])
}

/// The first ten characters spell a valid `YYYY-MM-DD` calendar date.
pub open spec fn date_shape(s: Seq<char>) -> bool {
    &&& s.len() >= 10
    &&& is_digit(s[0]) && is_digit(s[1]) && is_digit(s[2]) && is_digit(s[3])
    &&& s[4] == '-'
    &&& is_digit(s[5]) && is_digit(s[6])
    &&& s[7] == '-'
    &&& is_digit(s[8]) && is_digit(s[9])
    &&& 1 <= num2(s, 5) <= 12
    &&& 1 <= num2(s, 8) <= days_in_month(num2(s, 5), is_leap_year(num4(s, 0)))
}

/// Characters 11 .. 18 spell a valid `HH:MM:SS` time of day.
pub open spec fn time_shape(s: Seq<char>) -> bool {
    &&& s.len() >= 19
    &&& is_digit(s[11]) && is_digit(s[12])
    &&& s[13] == ':'
    &&& is_digit(s[14]) && is_digit(s[15])
    &&& s[16] == ':'
    &&& is_digit(s[17]) && is_digit(s[18])
    &&& num2(s, 11) <= 23
    &&& num2(s, 14) <= 59
    &&& num2(s, 17) <= 59
}

/// A whole string that is exactly a calendar date.
pub open spec fn valid_date_str(s: Seq<char>) -> bool {
    s.len() == 10 && date_shape(s)
}

/// A string whose first nineteen characters are a combined date-time;
/// whatever follows (a zone, an offset) is ignored.
pub open spec fn valid_datetime_str(s: Seq<char>) -> bool {
    s.len() >= 19 && date_shape(s) && s[10] == 'T' && time_shape(s)
}

pub open spec fn spec_date_coord(s: Seq<char>) -> int {
    86400 * epoch_day(num4(s, 0), num2(s, 5), num2(s, 8))
}

pub open spec fn spec_datetime_coord(s: Seq<char>) -> int {
    spec_date_coord(s) + 3600 * num2(s, 11) + 60 * num2(s, 14) + num2(s, 17)
}

/// What the parser accepts, and the coordinate it assigns: the single
/// reference point for every contract that mentions date strings.
pub open spec fn spec_coordinate(s: Seq<char>) -> Option<int> {
    if valid_date_str(s) {
        Some(spec_date_coord(s))
    } else if valid_datetime_str(s) {
        Some(spec_datetime_coord(s))
    } else {
        None
    }
}

/// The day count of every supported date stays within fixed bounds.
pub proof fn lemma_epoch_day_bounds(y: int, m: int, d: int)
    requires
        valid_ymd(y, m, d),
    ensures
        -719528 <= epoch_day(y, m, d) <= 2932896,
{
    lemma_days_before_year_le(0, y);
    lemma_days_before_year_le(y, 9999);
    lemma_days_before_year_step(9999);
    lemma_day_of_year_bounds(m, d, is_leap_year(y));
    assert(days_before_year(0) == 0) by {
        assert(leap_years_before(0) == 0);
    }
    assert(days_before_year(10000) == 3652425) by {
        assert((10000 + 3) / 4 == 2500);
        assert((10000 + 99) / 100 == 100);
        assert((10000 + 399) / 400 == 25);
        lemma_days_before_year_step(9999);
        lemma_div_bump(9999, 4);
        lemma_div_bump(9999, 100);
        lemma_div_bump(9999, 400);
    }
}

/// Every coordinate the grammar can produce lies strictly inside the bound.
pub proof fn lemma_coordinate_in_bound(s: Seq<char>)
    requires
        spec_coordinate(s) is Some,
    ensures
        -COORD_BOUND < spec_coordinate(s)->0 < COORD_BOUND,
{
    lemma_epoch_day_bounds(num4(s, 0), num2(s, 5), num2(s, 8));
}

// ---------------------------------------------------------------------------
// Calendar order, and the monotonicity law
// ---------------------------------------------------------------------------

/// Calendar order of two accepted strings: the written date of `a` is
/// strictly earlier than the written date of `b`.
pub open spec fn date_precedes(a: Seq<char>, b: Seq<char>) -> bool
    recommends
        spec_coordinate(a) is Some,
        spec_coordinate(b) is Some,
{
    let y1 = num4(a, 0);
    let m1 = num2(a, 5);
    let d1 = num2(a, 8);
    let y2 = num4(b, 0);
    let m2 = num2(b, 5);
    let d2 = num2(b, 8);
    y1 < y2 || (y1 == y2 && (m1 < m2 || (m1 == m2 && d1 < d2)))
}

/// Law: the date-to-coordinate map is monotone over calendar order.  For any
/// two accepted inputs, if the calendar date written in `a` precedes the one
/// written in `b`, then the coordinate of `a` is at most — in fact strictly
/// below — the coordinate of `b`, whatever times of day either carries.
pub proof fn lemma_coordinate_monotonic(a: Seq<char>, b: Seq<char>)
    requires
        spec_coordinate(a) is Some,
        spec_coordinate(b) is Some,
        date_precedes(a, b),
    ensures
        spec_coordinate(a)->0 <= spec_coordinate(b)->0,
        spec_coordinate(a)->0 < spec_coordinate(b)->0,
{
    let y1 = num4(a, 0);
    let m1 = num2(a, 5);
    let d1 = num2(a, 8);
    let y2 = num4(b, 0);
    let m2 = num2(b, 5);
    let d2 = num2(b, 8);
    lemma_epoch_day_monotonic(y1, m1, d1, y2, m2, d2);
}

// ---------------------------------------------------------------------------
// The executable parser
// ---------------------------------------------------------------------------

/// Reads the decimal digit at position `i`, if there is one.
fn digit_at(s: &str, i: usize) -> (r: Option<u32>)
    requires
        i < s@.len(),
    ensures
        match r {
            Some(v) => is_digit(s@[i as int]) && v == digit_val(s@[i as int]),
            None => !is_digit(s@[i as int]),
        },
{
    let c = s.get_char(i);
    let u = c as u32;
    if 48 <= u && u <= 57 {
        Some(u - 48)
    } else {
        None
    }
}

fn char_at_is(s: &str, i: usize, expected: char) -> (r: bool)
    requires
        i < s@.len(),
    ensures
        r == (s@[i as int] == expected),
{
    s.get_char(i) == expected
}

fn is_leap_year_exec(y: u32) -> (r: bool)
    ensures
        r == is_leap_year(y as int),
{
    (y % 4 == 0 && y % 100 != 0) || y % 400 == 0
}

fn days_in_month_exec(m: u32, leap: bool) -> (r: u32)
    requires
        1 <= m <= 12,
    ensures
        r == days_in_month(m as int, leap),
{
    if m == 2 {
        if leap { 29 } else { 28 }
    } else if m == 4 || m == 6 || m == 9 || m == 11 {
        30
    } else {
        31
    }
}

fn days_before_month_exec(m: u32, leap: bool) -> (r: u32)
    requires
        1 <= m <= 12,
    ensures
        r == days_before_month(m as int, leap),
{
    let base: u32 = if m == 1 { 0 }
        else if m == 2 { 31 }
        else if m == 3 { 59 }
        else if m == 4 { 90 }
        else if m == 5 { 120 }
        else if m == 6 { 151 }
        else if m == 7 { 181 }
        else if m == 8 { 212 }
        else if m == 9 { 243 }
        else if m == 10 { 273 }
        else if m == 11 { 304 }
        else { 334 };
    if m > 2 && leap { base + 1 } else { base }
}

fn days_before_year_exec(y: u32) -> (r: u32)
    requires
        y <= 9999,
    ensures
        r == days_before_year(y as int),
{
    365 * y + (y + 3) / 4 + (y + 399) / 400 - (y + 99) / 100
}

/// The axis value of a calendar day's midnight, in seconds.
fn date_seconds(y: u32, m: u32, d: u32) -> (r: i64)
    requires
        valid_ymd(y as int, m as int, d as int),
    ensures
        r == 86400 * epoch_day(y as int, m as int, d as int),
        -COORD_BOUND < r,
        r + 86399 < COORD_BOUND,
{
    proof {
        lemma_epoch_day_bounds(y as int, m as int, d as int);
    }
    let leap = is_leap_year_exec(y);
    let day: i64 = days_before_year_exec(y) as i64 + days_before_month_exec(m, leap) as i64
        + (d - 1) as i64 - 719528;
    day * 86400
}

/// Reads the ten leading characters as `YYYY-MM-DD` and validates the date.
fn parse_date_part(s: &str) -> (r: Option<(u32, u32, u32)>)
    requires
        s@.len() >= 10,
    ensures
        match r {
            Some(p) => date_shape(s@) && p.0 == num4(s@, 0) && p.1 == num2(s@, 5) && p.2 == num2(
                s@,
                8,
            ),
            None => !date_shape(s@),
        },
{
    let y0 = digit_at(s, 0);
    let y1 = digit_at(s, 1);
    let y2 = digit_at(s, 2);
    let y3 = digit_at(s, 3);
    let m0 = digit_at(s, 5);
    let m1 = digit_at(s, 6);
    let d0 = digit_at(s, 8);
    let d1 = digit_at(s, 9);
    if let (Some(y0), Some(y1), Some(y2), Some(y3), Some(m0), Some(m1), Some(d0), Some(d1)) = (
        y0,
        y1,
        y2,
        y3,
        m0,
        m1,
        d0,
        d1,
    ) {
        if !char_at_is(s, 4, '-') || !char_at_is(s, 7, '-') {
            return None;
        }
        let y = 1000 * y0 + 100 * y1 + 10 * y2 + y3;
        let m = 10 * m0 + m1;
        let d = 10 * d0 + d1;
        if 1 <= m && m <= 12 && 1 <= d && d <= days_in_month_exec(m, is_leap_year_exec(y)) {
            Some((y, m, d))
        } else {
            None
        }
    } else {
        None
    }
}

/// Reads characters 11 .. 18 as `HH:MM:SS` and returns the second of the day.
fn parse_time_part(s: &str) -> (r: Option<u32>)
    requires
        s@.len() >= 19,
    ensures
        match r {
            Some(t) => time_shape(s@) && t == 3600 * num2(s@, 11) + 60 * num2(s@, 14) + num2(
                s@,
                17,
            ) && t < 86400,
            None => !time_shape(s@),
        },
{
    let h0 = digit_at(s, 11);
    let h1 = digit_at(s, 12);
    let i0 = digit_at(s, 14);
    let i1 = digit_at(s, 15);
    let s0 = digit_at(s, 17);
    let s1 = digit_at(s, 18);
    if let (Some(h0), Some(h1), Some(i0), Some(i1), Some(s0), Some(s1)) = (
        h0,
        h1,
        i0,
        i1,
        s0,
        s1,
    ) {
        if !char_at_is(s, 13, ':') || !char_at_is(s, 16, ':') {
            return None;
        }
        let h = 10 * h0 + h1;
        let mi = 10 * i0 + i1;
        let se = 10 * s0 + s1;
        if h <= 23 && mi <= 59 && se <= 59 {
            Some(3600 * h + 60 * mi + se)
        } else {
            None
        }
    } else {
        None
    }
}

/// The date-to-coordinate map.  Returns the axis value, in seconds since
/// 1970-01-01T00:00:00, of the instant the string denotes, or `None` for any
/// string outside the accepted grammar.
pub fn coordinate(date_str: &str) -> (r: Option<i64>)
    ensures
        match r {
            Some(c) => spec_coordinate(date_str@) == Some(c as int) && -COORD_BOUND < c
                < COORD_BOUND,
            None => spec_coordinate(date_str@) is None,
        },
{
    let n = date_str.unicode_len();
    if n == 10 {
        match parse_date_part(date_str) {
            Some((y, m, d)) => Some(date_seconds(y, m, d)),
            None => None,
        }
    } else if n >= 19 {
        match parse_date_part(date_str) {
            Some((y, m, d)) => {
                if char_at_is(date_str, 10, 'T') {
                    match parse_time_part(date_str) {
                        Some(t) => Some(date_seconds(y, m, d) + t as i64),
                        None => None,
                    }
                } else {
                    None
                }
            },
            None => None,
        }
    } else {
        None
    }
}

} // verus!
