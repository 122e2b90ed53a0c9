use vstd::prelude::*;

use crate::calendar::CalendarView;
use crate::codec::{days_from_presentation_date, presentation_days_spec};
use crate::convert::Converter;
use crate::date::Date;
use crate::leap::{is_leap_spec, is_leap_year, leap_sum_spec, lemma_leap_consistency,
    sum_leap_years};
use crate::months::months_prefix_spec;
use crate::week::{week_of_index_spec, week_shift_spec, Week};

verus! {

use vstd::arithmetic::div_mod::{lemma_add_mod_noop, lemma_mod_bound, lemma_mod_multiples_vanish,
    lemma_mod_twice, lemma_small_mod};

/// Cyclic weekday number of a civil date under `view`: its presentation
/// day count plus the view's alignment shift, modulo seven; 0 reads as
/// Sunday and 1 through 6 as Monday through Saturday. Every day-of-week
/// algorithm of this crate returns exactly this value.
pub open spec fn week_day_number_spec(view: CalendarView, year: int, month: int, day: int) -> int {
    (presentation_days_spec(view, year, month, day) + week_shift_spec(view)) % 7
}

/// Weekday number that the month-table-shift method computes: the local
/// year (stepped back before March), its cumulative leap count, the table
/// entry for the month and the day, modulo seven.
pub open spec fn sakamoto_number_spec(view: CalendarView, year: int, month: int, day: int) -> int {
    let local_year = if month < 3 {
        year - 1
    } else {
        year
    };
    let entry = if month < 3 {
        (months_prefix_spec(false, month) + week_shift_spec(view)) % 7
    } else {
        (months_prefix_spec(false, month) + week_shift_spec(view) + 6) % 7
    };
    (local_year + leap_sum_spec(view, local_year) + entry + day) % 7
}

/// Weekday number that the leap-aware month-table-shift method computes:
/// the previous year, its cumulative leap count, the leap-selected table
/// entry for the month and the day, modulo seven.
pub open spec fn xavetar_number_spec(view: CalendarView, year: int, month: int, day: int) -> int {
    let entry = (months_prefix_spec(is_leap_spec(view, year), month) + week_shift_spec(view)) % 7;
    ((year - 1) + leap_sum_spec(view, year - 1) + entry + day) % 7
}

/// Dropping whole weeks from the year part does not move the weekday:
/// `365 * n` and `n` agree modulo seven.
proof fn lemma_week_year_reduction(n: int, rest: int)
    ensures
        (365 * n + rest) % 7 == (n + rest) % 7,
{
    lemma_mod_multiples_vanish(52 * n, n + rest, 7);
}

/// Replacing an addend by its remainder modulo seven does not move the
/// weekday.
proof fn lemma_week_table_reduction(base: int, addend: int)
    ensures
        (base + addend % 7) % 7 == (base + addend) % 7,
{
    lemma_add_mod_noop(base, addend % 7, 7);
    lemma_add_mod_noop(base, addend, 7);
    lemma_mod_twice(addend, 7);
}

/// Cross-algorithm agreement: for every civil date and every calendar
/// view, the day-count method, the month-table-shift method and the
/// leap-aware month-table-shift method compute the same weekday number.
/// The three derivations are independent, so a slip in the day-count
/// arithmetic would surface as a disagreement here.
pub proof fn lemma_cross_algorithm_agreement(view: CalendarView, year: int, month: int, day: int)
    requires
        year >= 1,
        1 <= month <= 12,
    ensures
        sakamoto_number_spec(view, year, month, day) == week_day_number_spec(
            view,
            year,
            month,
            day,
        ),
        xavetar_number_spec(view, year, month, day) == week_day_number_spec(view, year, month, day),
{
    let y = year;
    let m = month;
    let d = day;
    let shift = week_shift_spec(view);
    let l = is_leap_spec(view, y);
    let prefix = months_prefix_spec(l, m);
    let pres = presentation_days_spec(view, y, m, d);
    let sl = leap_sum_spec(view, y - 1);
    lemma_leap_consistency(view, y);
    assert(pres + shift == 365 * (y - 1) + (sl + prefix + d + shift));
    lemma_week_year_reduction(y - 1, sl + prefix + d + shift);

    // The leap-aware table carries the prefix and the shift directly.
    let xavetar_entry = (prefix + shift) % 7;
    assert(xavetar_number_spec(view, y, m, d) == ((y - 1) + sl + d + xavetar_entry) % 7);
    lemma_week_table_reduction((y - 1) + sl + d, prefix + shift);

    if m < 3 {
        // Before March the plain table also carries prefix and shift, on
        // the stepped-back year; the prefix is leap-independent there.
        let entry = (months_prefix_spec(false, m) + shift) % 7;
        assert(sakamoto_number_spec(view, y, m, d) == ((y - 1) + sl + d + entry) % 7);
        assert(months_prefix_spec(false, m) == prefix);
        lemma_week_table_reduction((y - 1) + sl + d, prefix + shift);
    } else {
        // From March on the leap day sits inside both the prefix and the
        // leap count; the extra six in the table entry pays back the year
        // that is not stepped back.
        let lv: int = if l {
            1int
        } else {
            0int
        };
        let pb = months_prefix_spec(false, m);
        assert(prefix == pb + lv);
        assert(leap_sum_spec(view, y) == sl + lv);
        let entry = (pb + shift + 6) % 7;
        assert(sakamoto_number_spec(view, y, m, d) == ((y + sl + lv + d) + entry) % 7);
        lemma_week_table_reduction(y + sl + lv + d, pb + shift + 6);
        assert(y + sl + lv + d + pb + shift + 6 == 7 * 1 + ((y - 1) + sl + prefix + d + shift));
        lemma_mod_multiples_vanish(1, (y - 1) + sl + prefix + d + shift, 7);
    }
}

/// Weekday derivation straight from the era-day count: the day-count
/// method.
pub trait RataDie: Converter {
    /// Weekday of the held civil date by the day-count method.
    fn week_day(&self) -> (r: Week)
        requires
            self.date().year >= 1,
            self.date().month <= 12,
        ensures
            r == week_of_index_spec(
                week_day_number_spec(
                    self.date().view,
                    self.date().year as int,
                    self.date().month as int,
                    self.date().day as int,
                ),
            ),
    ;

    /// Weekday of `(year, month, day)` under `view` by the day-count
    /// method: the presentation day count plus the view's shift, modulo
    /// seven.
    fn from(view: CalendarView, year: u64, month: u8, day: u8) -> (r: Week)
        requires
            year >= 1,
            month <= 12,
        ensures
            r == week_of_index_spec(
                week_day_number_spec(view, year as int, month as int, day as int),
            ),
    ;
}

impl RataDie for Date {
    fn week_day(&self) -> (r: Week) {
        <Date as RataDie>::from(self.view, self.year, self.month, self.day)
    }

    fn from(view: CalendarView, year: u64, month: u8, day: u8) -> (r: Week) {
        let shift: u8 = crate::week::week_shift(view);
        let era_days: u128 = days_from_presentation_date(view, year, month, day);
        proof {
            lemma_mod_bound(
                presentation_days_spec(view, year as int, month as int, day as int)
                    + week_shift_spec(view),
                7,
            );
        }
        Week::from(((era_days + shift as u128) % 7) as u8)
    }
}

/// Weekday shift table of the month-table method: the table entry for
/// `month` under `view`, folded to the weekday cycle. The first two months
/// carry their own cumulative day counts; from March on the entry is
/// shifted one place down, which the method's year adjustment pays back.
pub fn sakamoto_shift(view: CalendarView, month: u8) -> (r: u8)
    requires
        1 <= month <= 12,
    ensures
        month < 3 ==> r == (months_prefix_spec(false, month as int) + week_shift_spec(view)) % 7,
        month >= 3 ==> r == (months_prefix_spec(false, month as int) + week_shift_spec(view) + 6)
            % 7,
        r < 7,
{
    match view {
        CalendarView::Julian => match month {
            1 => 5,
            2 => 1,
            3 => 0,
            4 => 3,
            5 => 5,
            6 => 1,
            7 => 3,
            8 => 6,
            9 => 2,
            10 => 4,
            11 => 0,
            _ => 2,
        },
        _ => match month {
            1 => 0,
            2 => 3,
            3 => 2,
            4 => 5,
            5 => 0,
            6 => 3,
            7 => 5,
            8 => 1,
            9 => 4,
            10 => 6,
            11 => 2,
            _ => 4,
        },
    }
}

/// Weekday derivation by the month-table-shift method, with the year
/// belonging to the previous civil year for January and February so that
/// leap-day corrections land on the right year boundary.
pub trait Sakamoto: Converter {
    /// Weekday of the held civil date by the month-table method.
    fn week_day(&self) -> (r: Week)
        requires
            self.date().year >= 1,
            1 <= self.date().month <= 12,
        ensures
            r == week_of_index_spec(
                week_day_number_spec(
                    self.date().view,
                    self.date().year as int,
                    self.date().month as int,
                    self.date().day as int,
                ),
            ),
    ;

    /// Weekday of `(year, month, day)` under `view` by the month-table
    /// method: year count plus cumulative leap count plus table entry plus
    /// day, modulo seven, with the year stepped back before March.
    fn from(view: CalendarView, year: u64, month: u8, day: u8) -> (r: Week)
        requires
            year >= 1,
            1 <= month <= 12,
        ensures
            r == week_of_index_spec(
                week_day_number_spec(view, year as int, month as int, day as int),
            ),
    ;
}

impl Sakamoto for Date {
    fn week_day(&self) -> (r: Week) {
        <Date as Sakamoto>::from(self.view, self.year, self.month, self.day)
    }

    fn from(view: CalendarView, year: u64, month: u8, day: u8) -> (r: Week) {
        let table: u8 = sakamoto_shift(view, month);

        let local_year: u64 = if month < 3 {
            year - 1
        } else {
            year
        };

        let sum: u128 = (local_year as u128) + sum_leap_years(view, local_year as u128) + (
        table as u128) + (day as u128);

        proof {
            crate::leap::lemma_leap_sum_monotone(view, 0, year as int - 1);
            crate::leap::lemma_leap_sum_zero(view);
            lemma_leap_consistency(view, year as int);
            lemma_cross_algorithm_agreement(view, year as int, month as int, day as int);
            assert(sum as int % 7 == sakamoto_number_spec(
                view,
                year as int,
                month as int,
                day as int,
            ));
            lemma_mod_bound(sum as int, 7);
        }

        Week::from((sum % 7) as u8)
    }
}

/// Weekday shift table of the leap-aware month-table method: the
/// cumulative day count before `month`, under the year's own leap flag,
/// plus the view's shift, folded to the weekday cycle.
pub fn xavetar_shift(view: CalendarView, leap: bool, month: u8) -> (r: u8)
    requires
        1 <= month <= 12,
    ensures
        r == (months_prefix_spec(leap, month as int) + week_shift_spec(view)) % 7,
        r < 7,
{
    match view {
        CalendarView::Julian => {
            if !leap {
                match month {
                    1 => 5,
                    2 => 1,
                    3 => 1,
                    4 => 4,
                    5 => 6,
                    6 => 2,
                    7 => 4,
                    8 => 0,
                    9 => 3,
                    10 => 5,
                    11 => 1,
                    _ => 3,
                }
            } else {
                match month {
                    1 => 5,
                    2 => 1,
                    3 => 2,
                    4 => 5,
                    5 => 0,
                    6 => 3,
                    7 => 5,
                    8 => 1,
                    9 => 4,
                    10 => 6,
                    11 => 2,
                    _ => 4,
                }
            }
        },
        _ => {
            if !leap {
                match month {
                    1 => 0,
                    2 => 3,
                    3 => 3,
                    4 => 6,
                    5 => 1,
                    6 => 4,
                    7 => 6,
                    8 => 2,
                    9 => 5,
                    10 => 0,
                    11 => 3,
                    _ => 5,
                }
            } else {
                match month {
                    1 => 0,
                    2 => 3,
                    3 => 4,
                    4 => 0,
                    5 => 2,
                    6 => 5,
                    7 => 0,
                    8 => 3,
                    9 => 6,
                    10 => 1,
                    11 => 4,
                    _ => 6,
                }
            }
        },
    }
}

/// Weekday derivation by the leap-aware month-table-shift method: the
/// table is selected by the year's own leap flag, so no year adjustment is
/// needed.
pub trait Xavetar: Converter {
    /// Weekday of the held civil date by the leap-aware month-table
    /// method.
    fn week_day(&self) -> (r: Week)
        requires
            self.date().year >= 1,
            1 <= self.date().month <= 12,
        ensures
            r == week_of_index_spec(
                week_day_number_spec(
                    self.date().view,
                    self.date().year as int,
                    self.date().month as int,
                    self.date().day as int,
                ),
            ),
    ;

    /// Weekday of `(year, month, day)` under `view` by the leap-aware
    /// month-table method: previous year count plus its cumulative leap
    /// count plus the leap-selected table entry plus day, modulo seven.
    fn from(view: CalendarView, year: u64, month: u8, day: u8) -> (r: Week)
        requires
            year >= 1,
            1 <= month <= 12,
        ensures
            r == week_of_index_spec(
                week_day_number_spec(view, year as int, month as int, day as int),
            ),
    ;
}

impl Xavetar for Date {
    fn week_day(&self) -> (r: Week) {
        <Date as Xavetar>::from(self.view, self.year, self.month, self.day)
    }

    fn from(view: CalendarView, year: u64, month: u8, day: u8) -> (r: Week) {
        let leap: bool = is_leap_year(view, year as u128);
        let table: u8 = xavetar_shift(view, leap, month);

        let last_year: u128 = (year - 1) as u128;

        let sum: u128 = last_year + sum_leap_years(view, last_year) + (table as u128) + (
        day as u128);

        proof {
            crate::leap::lemma_leap_sum_monotone(view, 0, year as int - 1);
            crate::leap::lemma_leap_sum_zero(view);
            lemma_cross_algorithm_agreement(view, year as int, month as int, day as int);
            assert(sum as int % 7 == xavetar_number_spec(
                view,
                year as int,
                month as int,
                day as int,
            ));
            lemma_mod_bound(sum as int, 7);
        }

        Week::from((sum % 7) as u8)
    }
}

} // verus!
