use vstd::prelude::*;

use crate::calendar::CalendarView;

verus! {

use vstd::arithmetic::div_mod::{
    lemma_fundamental_div_mod,
    lemma_fundamental_div_mod_converse,
    lemma_mod_bound,
    lemma_mod_multiples_basic,
    lemma_div_is_ordered,
    lemma_div_is_ordered_by_denominator,
};

/// Count of leap years in `[1, year]` under `view`'s leap rule.
///
/// The Julian rule admits every fourth year, the Gregorian rule removes the
/// century years that are not divisible by 400, and the Solar rule follows
/// the tropical leap fraction 0.24219 as an exact scaled-integer accumulator:
/// `(year * 24219) / 100000`. No floating point is involved anywhere, so the
/// count is drift-free at every magnitude.
pub open spec fn leap_sum_spec(view: CalendarView, year: int) -> int {
    match view {
        CalendarView::Julian => year / 4,
        CalendarView::Gregorian => year / 4 - year / 100 + year / 400,
        CalendarView::Solar => (year * 24219) / 100000,
    }
}

/// Whether `year` is a leap year under `view`.
///
/// The Solar rule is defined *by difference* of the cumulative accumulator:
/// a fractional leap constant cannot be tested for integrality directly, so a
/// Solar year is leap exactly when the accumulator steps up at it.
pub open spec fn is_leap_spec(view: CalendarView, year: int) -> bool {
    match view {
        CalendarView::Julian => year % 4 == 0,
        CalendarView::Gregorian => year % 4 == 0 && (year % 100 != 0 || year % 400 == 0),
        CalendarView::Solar => year >= 1 && leap_sum_spec(view, year) > leap_sum_spec(
            view,
            year - 1,
        ),
    }
}

/// How a quotient moves when the dividend steps down by one: it drops by one
/// exactly at the multiples of the divisor.
proof fn lemma_div_step_down(y: int, d: int)
    requires
        y >= 1,
        d >= 1,
    ensures
        y / d - (y - 1) / d == if y % d == 0 {
            1int
        } else {
            0int
        },
{
    let q = y / d;
    let r = y % d;
    lemma_fundamental_div_mod(y, d);
    lemma_mod_bound(y, d);
    if r == 0 {
        assert(y == d * q);
        assert(q >= 1) by {
            if q <= 0 {
                assert(d * q <= 0) by (nonlinear_arith)
                    requires
                        d >= 1,
                        q <= 0,
                ;
            }
        }
        assert(y - 1 == (q - 1) * d + (d - 1)) by (nonlinear_arith)
            requires
                y == d * q,
        ;
        lemma_fundamental_div_mod_converse(y - 1, d, q - 1, d - 1);
    } else {
        assert(y - 1 == q * d + (r - 1)) by (nonlinear_arith)
            requires
                y == d * q + r,
        ;
        lemma_fundamental_div_mod_converse(y - 1, d, q, r - 1);
    }
}

/// A quotient grows by zero or one when the dividend grows by less than the
/// divisor.
proof fn lemma_div_step_bounded(a: int, c: int, n: int)
    requires
        a >= 0,
        0 <= c < n,
    ensures
        (a + c) / n - a / n == 0 || (a + c) / n - a / n == 1,
{
    let q = a / n;
    let r = a % n;
    lemma_fundamental_div_mod(a, n);
    lemma_mod_bound(a, n);
    if r + c < n {
        assert(a + c == q * n + (r + c)) by (nonlinear_arith)
            requires
                a == n * q + r,
        ;
        lemma_fundamental_div_mod_converse(a + c, n, q, r + c);
    } else {
        assert(a + c == (q + 1) * n + (r + c - n)) by (nonlinear_arith)
            requires
                a == n * q + r,
        ;
        lemma_fundamental_div_mod_converse(a + c, n, q + 1, r + c - n);
    }
}

/// Scaling then dividing distributes over a split of the dividend into
/// quotient and remainder: `(y * c) / n == (y / n) * c + ((y % n) * c) / n`.
/// This is how the Solar accumulator is computed without overflowing on wide
/// years.
pub proof fn lemma_div_scale_split(y: int, c: int, n: int)
    requires
        y >= 0,
        c >= 0,
        n >= 1,
    ensures
        (y * c) / n == (y / n) * c + ((y % n) * c) / n,
{
    let q = y / n;
    let r = y % n;
    lemma_fundamental_div_mod(y, n);
    lemma_mod_bound(y, n);
    let q2 = (r * c) / n;
    let r2 = (r * c) % n;
    lemma_fundamental_div_mod(r * c, n);
    lemma_mod_bound(r * c, n);
    assert(r * c >= 0) by (nonlinear_arith)
        requires
            r >= 0,
            c >= 0,
    ;
    assert(y * c == (q * c + q2) * n + r2) by (nonlinear_arith)
        requires
            y == n * q + r,
            r * c == n * q2 + r2,
    ;
    assert(q * c >= 0) by (nonlinear_arith)
        requires
            q >= 0,
            c >= 0,
    ;
    lemma_fundamental_div_mod_converse(y * c, n, q * c + q2, r2);
}

/// Leap consistency: stepping the cumulative leap count from `year - 1` to
/// `year` adds exactly one when `year` is leap under `view` and nothing
/// otherwise. This holds for every year from one upward, with no magnitude
/// ceiling: the statement is over mathematical integers.
pub proof fn lemma_leap_consistency(view: CalendarView, year: int)
    requires
        year >= 1,
    ensures
        leap_sum_spec(view, year) - leap_sum_spec(view, year - 1) == if is_leap_spec(
            view,
            year,
        ) {
            1int
        } else {
            0int
        },
{
    match view {
        CalendarView::Julian => {
            lemma_div_step_down(year, 4);
        },
        CalendarView::Gregorian => {
            lemma_div_step_down(year, 4);
            lemma_div_step_down(year, 100);
            lemma_div_step_down(year, 400);
            if year % 100 == 0 {
                lemma_fundamental_div_mod(year, 100);
                assert(year == (25 * (year / 100)) * 4) by (nonlinear_arith)
                    requires
                        year == 100 * (year / 100),
                ;
                lemma_mod_multiples_basic(25 * (year / 100), 4);
            }
            if year % 400 == 0 {
                lemma_fundamental_div_mod(year, 400);
                assert(year == (4 * (year / 400)) * 100) by (nonlinear_arith)
                    requires
                        year == 400 * (year / 400),
                ;
                lemma_mod_multiples_basic(4 * (year / 400), 100);
            }
        },
        CalendarView::Solar => {
            let a = (year - 1) * 24219;
            assert(year * 24219 == a + 24219);
            assert((year - 1) * 24219 >= 0) by (nonlinear_arith)
                requires
                    year >= 1,
            ;
            lemma_div_step_bounded(a, 24219, 100000);
        },
    }
}

/// No year has passed, no leap year has: the accumulator starts at zero.
pub proof fn lemma_leap_sum_zero(view: CalendarView)
    ensures
        leap_sum_spec(view, 0) == 0,
{
    match view {
        CalendarView::Julian => {
        },
        CalendarView::Gregorian => {
        },
        CalendarView::Solar => {
            assert(0int * 24219 == 0);
        },
    }
}

/// The cumulative leap count never decreases, and it grows by at most one
/// per year: over `[a, b]` it gains between zero and `b - a`.
pub proof fn lemma_leap_sum_monotone(view: CalendarView, a: int, b: int)
    requires
        0 <= a <= b,
    ensures
        0 <= leap_sum_spec(view, b) - leap_sum_spec(view, a) <= b - a,
    decreases b - a,
{
    if a < b {
        lemma_leap_sum_monotone(view, a, b - 1);
        lemma_leap_consistency(view, b);
    }
}

/// Cumulative count of leap years in `[1, year]` under `view`.
///
/// For the Solar rule the accumulator `(year * 24219) / 100000` is computed
/// by splitting `year` at the scale constant, so no intermediate product can
/// exceed the wide-integer range even at the largest representable year.
pub fn sum_leap_years(view: CalendarView, year: u128) -> (r: u128)
    ensures
        r == leap_sum_spec(view, year as int),
{
    match view {
        CalendarView::Julian => year / 4,
        CalendarView::Gregorian => {
            proof {
                lemma_div_is_ordered_by_denominator(year as int, 4, 100);
            }
            year / 4 - year / 100 + year / 400
        },
        CalendarView::Solar => {
            let q: u128 = year / 100000;
            let rem: u128 = year % 100000;
            proof {
                lemma_div_is_ordered(year as int, u128::MAX as int, 100000);
                lemma_div_scale_split(year as int, 24219, 100000);
            }
            q * 24219 + (rem * 24219) / 100000
        },
    }
}

/// Whether `year` is a leap year under `view`'s rule. The Solar test is the
/// exact delta of the monotone integer accumulator, never a floating-point
/// fraction.
pub fn is_leap_year(view: CalendarView, year: u128) -> (r: bool)
    ensures
        r == is_leap_spec(view, year as int),
{
    match view {
        CalendarView::Julian => year % 4 == 0,
        CalendarView::Gregorian => year % 4 == 0 && (year % 100 != 0 || year % 400 == 0),
        CalendarView::Solar => {
            if year != 0 {
                sum_leap_years(view, year) > sum_leap_years(view, year - 1)
            } else {
                false
            }
        },
    }
}

} // verus!
