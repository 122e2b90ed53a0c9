use vstd::prelude::*;

use crate::calendar::CalendarView;
use crate::leap::{is_leap_spec, is_leap_year};

verus! {

use vstd::arithmetic::div_mod::lemma_div_is_ordered;

/// Interval at which the Solar view schedules a drift-correction year.
pub const OVERHEAD_YEAR: u16 = 4000;

/// Cumulative count of Solar drift corrections through `year`: the exact
/// integer form of one correction per 4000 years plus one per 20000 plus
/// one per 100000, which sums to exactly 31 per 100000 years. The count is
/// the scaled-integer accumulator `(year * 31) / 100000`, never a
/// floating-point sum of the three fractions.
pub open spec fn overhead_sum_spec(year: int) -> int {
    (year * 31) / 100000
}

/// Whether `year` is a Solar drift-correction year.
pub open spec fn is_overhead_spec(year: int) -> bool {
    year % 4000 == 0
}

/// Count of the first `n` scheduled correction years (the multiples of
/// 4000 up to `n * 4000`) that are also Solar leap years.
pub open spec fn overhead_leap_count_spec(n: int) -> int
    decreases n,
{
    if n <= 0 {
        0
    } else {
        overhead_leap_count_spec(n - 1) + if is_leap_spec(CalendarView::Solar, n * 4000) {
            1int
        } else {
            0int
        }
    }
}

/// Whether `year` is a drift-correction year. Only the Solar view schedules
/// them; the other views have no such rule.
pub fn is_overhead_year(view: CalendarView, year: u128) -> (r: bool)
    requires
        view == CalendarView::Solar,
    ensures
        r == is_overhead_spec(year as int),
{
    match view {
        CalendarView::Solar => year % 4000 == 0,
        _ => {
            proof {
                assert(false);
            }
            false
        },
    }
}

/// Whether `year` is a drift-correction year that is also leap, in which
/// case the correction consumes the leap day itself.
pub fn is_overhead_leap_year(view: CalendarView, year: u128) -> (r: bool)
    requires
        view == CalendarView::Solar,
    ensures
        r == (is_overhead_spec(year as int) && is_leap_spec(CalendarView::Solar, year as int)),
{
    match view {
        CalendarView::Solar => year % 4000 == 0 && is_leap_year(view, year),
        _ => {
            proof {
                assert(false);
            }
            false
        },
    }
}

/// Cumulative count of Solar drift corrections through `year`, computed by
/// splitting `year` at the scale constant so no intermediate product can
/// overflow the wide-integer range.
pub fn sum_overhead_years(view: CalendarView, year: u128) -> (r: u128)
    requires
        view == CalendarView::Solar,
    ensures
        r == overhead_sum_spec(year as int),
{
    match view {
        CalendarView::Solar => {
            let q: u128 = year / 100000;
            let rem: u128 = year % 100000;
            proof {
                lemma_div_is_ordered(year as int, u128::MAX as int, 100000);
                crate::leap::lemma_div_scale_split(year as int, 31, 100000);
            }
            q * 31 + (rem * 31) / 100000
        },
        _ => {
            proof {
                assert(false);
            }
            0
        },
    }
}

/// Counts, among the first `sum_overhead_years` scheduled correction years,
/// those that are also Solar leap years, by walking the multiples of 4000.
pub fn sum_overhead_leap_years(view: CalendarView, sum_overhead_years: u128) -> (r: u128)
    requires
        view == CalendarView::Solar,
        sum_overhead_years <= u128::MAX / 4000,
    ensures
        r == overhead_leap_count_spec(sum_overhead_years as int),
{
    match view {
        CalendarView::Solar => {
            let n: u128 = sum_overhead_years;
            let mut count: u128 = 0;
            let mut i: u128 = 1;
            while i <= n
                invariant
                    1 <= i <= n + 1,
                    n <= u128::MAX / 4000,
                    count == overhead_leap_count_spec(i as int - 1),
                    count <= i - 1,
                decreases n + 1 - i,
            {
                if is_leap_year(CalendarView::Solar, i * 4000) {
                    count = count + 1;
                }
                proof {
                    assert(overhead_leap_count_spec(i as int) == overhead_leap_count_spec(
                        i as int - 1,
                    ) + if is_leap_spec(CalendarView::Solar, i as int * 4000) {
                        1int
                    } else {
                        0int
                    });
                }
                i = i + 1;
            }
            count
        },
        _ => {
            proof {
                assert(false);
            }
            0
        },
    }
}

} // verus!
