use vstd::prelude::*;

use crate::calendar::CalendarView;
use crate::leap::{is_leap_spec, is_leap_year, leap_sum_spec, lemma_leap_consistency,
    lemma_leap_sum_monotone, sum_leap_years};
use crate::months::{month_len_spec, months_prefix_spec, month_index_spec, lemma_months_prefix_step,
    Months};

verus! {

use vstd::arithmetic::div_mod::lemma_fundamental_div_mod;

pub const BASE_DAYS_YEAR: u16 = 365;

pub const LEAP_DAYS_YEAR: u16 = 366;

/// Length in days of `year` under `view`: 365, or 366 when the year is
/// leap.
pub open spec fn year_len_spec(view: CalendarView, year: int) -> int {
    365 + if is_leap_spec(view, year) {
        1int
    } else {
        0int
    }
}

/// Days in all the years strictly before `year` under `view`: every year
/// contributes 365 days and every leap year among them one more.
pub open spec fn days_before_year_spec(view: CalendarView, year: int) -> int {
    365 * (year - 1) + leap_sum_spec(view, year - 1)
}

/// One-based presentation day count of the civil date
/// `(year, month, day)` under `view`: the days of the whole years before
/// `year`, plus the days of the whole months of `year` before `month`, plus
/// `day`.
pub open spec fn presentation_days_spec(view: CalendarView, year: int, month: int, day: int) -> int {
    days_before_year_spec(view, year) + months_prefix_spec(is_leap_spec(view, year), month) + day
}

/// A well-formed civil date under `view`: the month exists and the day fits
/// the month's length for that year.
pub open spec fn valid_civil_spec(view: CalendarView, year: int, month: int, day: int) -> bool {
    &&& 1 <= year
    &&& 1 <= month <= 12
    &&& 1 <= day <= month_len_spec(is_leap_spec(view, year), month)
}

/// A civil date that the view's current era can present. The Julian
/// presentation starts two days before its era's day zero, so Julian year 1,
/// January 1 and 2 exist as presentations but name no era day.
pub open spec fn representable_spec(view: CalendarView, year: int, month: int, day: int) -> bool {
    &&& valid_civil_spec(view, year, month, day)
    &&& !(view == CalendarView::Julian && year == 1 && month == 1 && day <= 2)
}

/// Stepping the whole-year day count across `year` adds exactly that year's
/// length.
pub proof fn lemma_days_before_year_step(view: CalendarView, year: int)
    requires
        year >= 1,
    ensures
        days_before_year_spec(view, year + 1) == days_before_year_spec(view, year)
            + year_len_spec(view, year),
{
    lemma_leap_consistency(view, year);
}

/// Over any span of years the whole-year day count grows by at least 365
/// and at most 366 days per year.
pub proof fn lemma_days_before_year_bounds(view: CalendarView, a: int, b: int)
    requires
        1 <= a <= b,
    ensures
        365 * (b - a) <= days_before_year_spec(view, b) - days_before_year_spec(view, a) <= 366 * (b
            - a),
{
    lemma_leap_sum_monotone(view, a - 1, b - 1);
}

/// Exec form of the cumulative month table: days in the months strictly
/// before `month` within one year.
pub fn months_prefix(leap: bool, month: u8) -> (r: u16)
    requires
        month <= 13,
    ensures
        r == months_prefix_spec(leap, month as int),
{
    let feb: u16 = if leap {
        29
    } else {
        28
    };
    match month {
        0 => 0,
        1 => 0,
        2 => 31,
        3 => 31 + feb,
        4 => 62 + feb,
        5 => 92 + feb,
        6 => 123 + feb,
        7 => 153 + feb,
        8 => 184 + feb,
        9 => 215 + feb,
        10 => 245 + feb,
        11 => 276 + feb,
        12 => 306 + feb,
        _ => 337 + feb,
    }
}

/// Presentation day count of the civil date `(year, month, day)` under
/// `view`: whole years as `base_years * 365 + leap_years * 366`, whole
/// months from the cumulative table for the year's leap flag, then the day.
///
/// A month of zero is accepted and contributes no month days; together with
/// a day of zero the result is the day count of the whole years before
/// `year` alone, which the year decomposition uses as its probe.
pub fn days_from_presentation_date(view: CalendarView, year: u64, month: u8, day: u8) -> (r: u128)
    requires
        year >= 1,
        month <= 12,
    ensures
        r == presentation_days_spec(view, year as int, month as int, day as int),
{
    let mut days: u128 = day as u128;

    let leap_year: bool = is_leap_year(view, year as u128);
    let leap_years: u128 = sum_leap_years(view, year as u128);

    proof {
        crate::leap::lemma_leap_sum_zero(view);
        lemma_leap_sum_monotone(view, 0, year as int - 1);
        lemma_leap_consistency(view, year as int);
    }

    let (only_base_years, only_leap_years): (u128, u128) = if !leap_year {
        ((year as u128 - 1) - leap_years, leap_years)
    } else {
        (year as u128 - leap_years, leap_years - 1)
    };

    days += only_base_years * 365 + only_leap_years * 366;

    if month > 1 {
        days += months_prefix(leap_year, month) as u128;
    }

    days
}

/// One day count and one day-of-year admit exactly one year under `view`:
/// the whole-year day counts of distinct years cannot overlap once each
/// day-of-year is confined to its year's length.
pub proof fn lemma_year_decomposition_unique(
    view: CalendarView,
    y1: int,
    d1: int,
    y2: int,
    d2: int,
)
    requires
        y1 >= 1,
        y2 >= 1,
        1 <= d1 <= year_len_spec(view, y1),
        1 <= d2 <= year_len_spec(view, y2),
        days_before_year_spec(view, y1) + d1 == days_before_year_spec(view, y2) + d2,
    ensures
        y1 == y2,
        d1 == d2,
{
    if y1 < y2 {
        lemma_days_before_year_step(view, y1);
        lemma_days_before_year_bounds(view, y1 + 1, y2);
        assert(365 * (y2 - y1 - 1) >= 0) by (nonlinear_arith)
            requires
                y2 - y1 - 1 >= 0,
        ;
    }
    if y2 < y1 {
        lemma_days_before_year_step(view, y2);
        lemma_days_before_year_bounds(view, y2 + 1, y1);
        assert(365 * (y1 - y2 - 1) >= 0) by (nonlinear_arith)
            requires
                y1 - y2 - 1 >= 0,
        ;
    }
}

/// One day-of-year admits exactly one month under the cumulative table.
pub proof fn lemma_month_decomposition_unique(leap: bool, m1: int, d1: int, m2: int, d2: int)
    requires
        1 <= m1 <= 12,
        1 <= m2 <= 12,
        1 <= d1 <= month_len_spec(leap, m1),
        1 <= d2 <= month_len_spec(leap, m2),
        months_prefix_spec(leap, m1) + d1 == months_prefix_spec(leap, m2) + d2,
    ensures
        m1 == m2,
        d1 == d2,
{
}

/// Recovers `(year, day_of_year)` from a one-based presentation day count
/// under `view`.
///
/// The year is found by a coarse division estimate refined with a bounded
/// binary search over the whole-year day counts, never by a linear scan, so
/// the work is bounded independent of the year's magnitude. The result is
/// the unique pair with the day-of-year inside the year's length.
pub fn year_from_presentation_days(view: CalendarView, presentation_days: u128) -> (r: (u64, u16))
    requires
        1 <= presentation_days,
        presentation_days <= days_before_year_spec(view, u64::MAX as int + 1),
    ensures
        r.0 >= 1,
        days_before_year_spec(view, r.0 as int) < presentation_days,
        presentation_days <= days_before_year_spec(view, r.0 as int) + year_len_spec(
            view,
            r.0 as int,
        ),
        r.1 == presentation_days - days_before_year_spec(view, r.0 as int),
        1 <= r.1 <= 366,
{
    let p: u128 = presentation_days;

    // Coarse estimate: the year lies between p / 366 and the rounded-up
    // quotient by 365, clamped to the representable year range.
    let estimate: u128 = p / 366;
    let lo0: u64 = if estimate < 1 {
        1
    } else {
        proof {
            lemma_fundamental_div_mod(p as int, 366);
            lemma_days_before_year_bounds(view, 1, estimate as int);
        }
        estimate as u64
    };
    let upper: u128 = (p + 364) / 365;
    let hi0: u64 = if upper >= u64::MAX as u128 {
        u64::MAX
    } else {
        proof {
            lemma_fundamental_div_mod(p as int + 364, 365);
            lemma_days_before_year_bounds(view, 1, upper as int + 1);
        }
        upper as u64
    };
    let mut lo: u64 = lo0;
    let mut hi: u64 = if hi0 < lo0 {
        lo0
    } else {
        hi0
    };

    proof {
        lemma_days_before_year_bounds(view, 1, lo as int);
        if (hi as int) < u64::MAX as int {
            lemma_days_before_year_bounds(view, hi as int + 1, u64::MAX as int + 1);
        }
    }

    while lo < hi
        invariant
            1 <= lo <= hi,
            days_before_year_spec(view, lo as int) < p,
            p <= days_before_year_spec(view, hi as int + 1),
        decreases hi - lo,
    {
        let mid: u64 = lo + (hi - lo + 1) / 2;
        let mid_days: u128 = days_from_presentation_date(view, mid, 0, 0);
        if mid_days < p {
            lo = mid;
        } else {
            hi = mid - 1;
        }
    }

    let base: u128 = days_from_presentation_date(view, lo, 0, 0);
    proof {
        lemma_days_before_year_step(view, lo as int);
    }
    let day_of_year: u16 = (p - base) as u16;
    (lo, day_of_year)
}

/// Recovers the month from a one-based day-of-year under `view`, leaving
/// the day-of-month behind in `days`: a linear scan over the cumulative
/// month table selected by the year's leap flag.
pub fn month_from_days(view: CalendarView, year: u64, days: &mut u16) -> (r: Months)
    requires
        year >= 1,
        1 <= *old(days),
        *old(days) <= year_len_spec(view, year as int),
    ensures
        ({
            let leap = is_leap_spec(view, year as int);
            let m = month_index_spec(r);
            &&& 1 <= m <= 12
            &&& months_prefix_spec(leap, m) < *old(days)
            &&& *old(days) <= months_prefix_spec(leap, m) + month_len_spec(leap, m)
            &&& *final(days) == *old(days) - months_prefix_spec(leap, m)
        }),
{
    let leap: bool = is_leap_year(view, year as u128);

    let mut month: u8 = 1;

    loop
        invariant
            1 <= month <= 12,
            leap == is_leap_spec(view, year as int),
            *old(days) <= year_len_spec(view, year as int),
            *days == *old(days) - months_prefix_spec(leap, month as int),
            *days >= 1,
        ensures
            1 <= month <= 12,
            *days == *old(days) - months_prefix_spec(leap, month as int),
            1 <= *days <= month_len_spec(leap, month as int),
        decreases 12 - month,
    {
        let month_length: u8 = Months::from(month).days(leap);
        if *days > month_length as u16 {
            proof {
                if month == 12 {
                    assert(false);
                }
                lemma_months_prefix_step(leap, month as int);
            }
            *days = *days - month_length as u16;
            month = month + 1;
        } else {
            break ;
        }
    }

    Months::from(month)
}

/// Splits a second count since the epoch into whole days and the seconds
/// inside the current day.
pub fn epoch_days_from_seconds(seconds: u128) -> (r: (u128, u128))
    ensures
        r.0 == seconds as int / 86400,
        r.1 == seconds as int % 86400,
        seconds == r.0 * 86400 + r.1,
        r.1 < 86400,
{
    proof {
        lemma_fundamental_div_mod(seconds as int, 86400);
    }
    (seconds / 86400, seconds % 86400)
}

/// Whether `(year, month, day)` is a date that `view`'s current era can
/// present: the month exists, the day fits that month in that year, and the
/// date does not fall in the two-day Julian gap before the era's day zero.
pub fn check_date(view: CalendarView, year: u64, month: u8, day: u8) -> (r: bool)
    ensures
        r == representable_spec(view, year as int, month as int, day as int),
{
    if year < 1 || month < 1 || month > 12 || day < 1 {
        return false;
    }
    let leap: bool = is_leap_year(view, year as u128);
    if day > Months::from(month).days(leap) {
        return false;
    }
    match view {
        CalendarView::Julian => !(year == 1 && month == 1 && day <= 2),
        CalendarView::Gregorian => true,
        CalendarView::Solar => true,
    }
}

} // verus!
