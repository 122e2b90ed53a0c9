use vstd::prelude::*;

use crate::calendar::CalendarView;
use crate::leap::{is_leap_spec, is_leap_year, leap_sum_spec, lemma_leap_consistency,
    lemma_leap_sum_monotone, lemma_leap_sum_zero, sum_leap_years};
use crate::months::{overhead_months_prefix, solar_months_prefix_spec};
use crate::overhead::{is_overhead_spec, is_overhead_year, overhead_sum_spec, sum_overhead_years};
use crate::codec::{days_before_year_spec, months_prefix, presentation_days_spec};

verus! {

use vstd::arithmetic::div_mod::{lemma_fundamental_div_mod, lemma_div_is_ordered,
    lemma_div_multiples_vanish, lemma_mod_bound};

/// Era day count of the civil date `(year, month, day)` under `view`. For
/// the Julian and Gregorian views this is the plain presentation day count.
/// The Solar view additionally subtracts one day for every completed
/// drift-correction year before `year` (a correction year's own day is
/// accounted inside its months), and selects its month table by the
/// `(leap, overhead)` pair of `year`.
pub open spec fn era_days_spec(view: CalendarView, year: int, month: int, day: int) -> int {
    match view {
        CalendarView::Julian => presentation_days_spec(view, year, month, day),
        CalendarView::Gregorian => presentation_days_spec(view, year, month, day),
        CalendarView::Solar => days_before_year_spec(CalendarView::Solar, year) - (
        overhead_sum_spec(year) - if is_overhead_spec(year) {
            1int
        } else {
            0int
        }) + solar_months_prefix_spec(
            is_leap_spec(CalendarView::Solar, year),
            is_overhead_spec(year),
            month,
        ) + day,
    }
}

/// Era day count of a civil date under `view`, with the Solar view's
/// drift corrections applied: the whole-year sum, minus the completed
/// corrections, plus the month table picked by the `(leap, overhead)` pair,
/// plus the day.
pub fn era_days_from_date(view: CalendarView, year: u128, month: u8, day: u8) -> (r: u128)
    requires
        1 <= year,
        year <= (u128::MAX - 255) / 366,
        month <= 12,
    ensures
        r == era_days_spec(view, year as int, month as int, day as int),
{
    let mut days: u128 = day as u128;

    let leap_year: bool = is_leap_year(view, year);
    let leap_years: u128 = sum_leap_years(view, year);

    proof {
        lemma_leap_sum_zero(view);
        lemma_leap_sum_monotone(view, 0, year as int - 1);
        lemma_leap_consistency(view, year as int);
        lemma_fundamental_div_mod(u128::MAX as int - 255, 366);
    }

    if !leap_year {
        days += leap_years * 366 + ((year - 1) - leap_years) * 365;
    } else {
        days += (leap_years - 1) * 366 + (year - leap_years) * 365;
    }

    proof {
        assert(days == day + 365 * (year as int - 1) + leap_sum_spec(view, year as int - 1));
    }

    if view == CalendarView::Solar {
        let overhead_years: u128 = sum_overhead_years(view, year);

        proof {
            assert(year as int * 31 <= year as int * 100000);
            lemma_div_is_ordered(year as int * 31, year as int * 100000, 100000);
            lemma_div_multiples_vanish(year as int, 100000);
        }

        if year % 4000 > 0 {
            days -= overhead_years;
        } else {
            proof {
                lemma_fundamental_div_mod(year as int, 4000);
                lemma_mod_bound(year as int, 4000);
                assert(year >= 4000) by (nonlinear_arith)
                    requires
                        year as int == 4000 * (year as int / 4000),
                        year >= 1,
                ;
                lemma_div_is_ordered(124000, year as int * 31, 100000);
            }
            days -= overhead_years - 1;
        }
    }

    if month > 1 {
        if view == CalendarView::Solar {
            let overhead_year: bool = is_overhead_year(view, year);

            if !leap_year && !overhead_year {
                days += months_prefix(false, month) as u128;
            } else if leap_year && !overhead_year {
                days += months_prefix(true, month) as u128;
            } else if !leap_year && overhead_year {
                days += overhead_months_prefix(month) as u128;
            } else {
                days += months_prefix(false, month) as u128;
            }
        } else {
            days += months_prefix(leap_year, month) as u128;
        }
    }

    days
}

} // verus!
