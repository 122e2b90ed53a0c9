use vstd::prelude::*;

use crate::calendar::CalendarView;
use crate::codec::{days_before_year_spec, epoch_days_from_seconds, month_from_days,
    presentation_days_spec, year_from_presentation_days, year_len_spec};
use crate::leap::is_leap_spec;
use crate::months::{month_len_spec, month_of_index_spec, months_prefix_spec, Months};
use crate::zone::{zone_seconds, Sign, Zone};

verus! {

/// Era days that had passed when the linear time axis started: the whole
/// Gregorian years 1 through 1969.
pub const UNIX_TIME_START_AFTER_DAY: u128 = 719162;

/// The Julian presentation runs two days ahead of its era's day zero: its
/// year 1 opens with two days that belong to the era before.
pub const JULIAN_BCE_DAYS_FIRST_YEAR: u128 = 2;

/// Offset from a view's era-day axis to its civil presentation day count.
pub open spec fn view_alignment_spec(view: CalendarView) -> int {
    match view {
        CalendarView::Julian => 2,
        CalendarView::Gregorian => 0,
        CalendarView::Solar => 0,
    }
}

/// The linear seconds with a zone offset folded in: unchanged when the
/// offset is already inside them, otherwise moved behind or ahead of UTC.
pub open spec fn zone_applied_spec(unix_time: int, zone: Zone, zone_in_unix: bool) -> int {
    if zone_in_unix {
        unix_time
    } else if zone.sign == Sign::Signed {
        unix_time - zone_seconds(zone)
    } else {
        unix_time + zone_seconds(zone)
    }
}

/// `(year, month, day)` is the civil reading of presentation day count `p`
/// under `view`: the day count falls inside `year`, its day-of-year falls
/// inside `month`, and `day` is what remains. By the decomposition
/// uniqueness lemmas exactly one triple satisfies this for each `p`.
pub open spec fn civil_decomposition_spec(
    view: CalendarView,
    p: int,
    year: int,
    month: int,
    day: int,
) -> bool {
    let leap = is_leap_spec(view, year);
    let doy = p - days_before_year_spec(view, year);
    &&& 1 <= year
    &&& days_before_year_spec(view, year) < p
    &&& p <= days_before_year_spec(view, year) + year_len_spec(view, year)
    &&& 1 <= month <= 12
    &&& months_prefix_spec(leap, month) < doy
    &&& doy <= months_prefix_spec(leap, month) + month_len_spec(leap, month)
    &&& day == doy - months_prefix_spec(leap, month)
}

/// A civil reading of `p` recomposes to exactly `p`.
pub proof fn lemma_civil_decomposition_recomposes(
    view: CalendarView,
    p: int,
    year: int,
    month: int,
    day: int,
)
    requires
        civil_decomposition_spec(view, p, year, month, day),
    ensures
        p == presentation_days_spec(view, year, month, day),
        1 <= day <= month_len_spec(is_leap_spec(view, year), month),
{
}

/// A well-formed civil date is the civil reading of its own presentation
/// day count.
pub proof fn lemma_valid_civil_decomposes(view: CalendarView, year: int, month: int, day: int)
    requires
        crate::codec::valid_civil_spec(view, year, month, day),
    ensures
        civil_decomposition_spec(
            view,
            presentation_days_spec(view, year, month, day),
            year,
            month,
            day,
        ),
{
    crate::months::lemma_months_prefix_bounds(is_leap_spec(view, year), month);
}

/// A civil date plus where it stands on the shared time axes: its era-day
/// count, its linear time, its zone and its calendar view. For a given
/// view, `era_days` and `(year, month, day)` are two encodings of the same
/// instant: the civil fields are the decomposition of
/// `era_days + view_alignment_spec(view)`.
#[derive(Debug, Clone, Copy, PartialEq, Eq, Structural)]
pub struct Date {
    pub day: u8,
    pub month: u8,
    pub year: u64,
    pub time_zone: Zone,
    pub unix_time: u128,
    pub era_days: u128,
    pub view: CalendarView,
}

impl Default for Date {
    fn default() -> (d: Date)
        ensures
            d == (Date {
                day: 0,
                month: 0,
                year: 0,
                time_zone: Zone { sign: Sign::Unsigned, hours: 0, minutes: 0, seconds: 0 },
                unix_time: 0,
                era_days: 0,
                view: CalendarView::Julian,
            }),
    {
        Date {
            day: 0,
            month: 0,
            year: 0,
            time_zone: Zone { sign: Sign::Unsigned, hours: 0, minutes: 0, seconds: 0 },
            unix_time: 0,
            era_days: 0,
            view: CalendarView::Julian,
        }
    }
}

impl Date {
    /// Builds the civil date that the linear second count falls on under
    /// `view`. When `zone_in_unix` is false the zone offset is first folded
    /// into the count; the offset must not pull the count below zero nor
    /// push it past the type's ceiling, and the count must stay inside the
    /// representable year range.
    pub fn of(view: CalendarView, unix_time: u128, time_zone: Zone, zone_in_unix: bool) -> (d:
        Date)
        requires
            !zone_in_unix && time_zone.sign == Sign::Signed ==> unix_time >= zone_seconds(
                time_zone,
            ),
            !zone_in_unix && time_zone.sign == Sign::Unsigned ==> unix_time + zone_seconds(
                time_zone,
            ) <= u128::MAX,
            zone_applied_spec(unix_time as int, time_zone, zone_in_unix) / 86400 + 719163
                + view_alignment_spec(view) <= days_before_year_spec(view, u64::MAX as int + 1),
        ensures
            d.view == view,
            d.time_zone == time_zone,
            d.unix_time == zone_applied_spec(unix_time as int, time_zone, zone_in_unix),
            d.era_days == zone_applied_spec(unix_time as int, time_zone, zone_in_unix) / 86400
                + 719163,
            civil_decomposition_spec(
                view,
                d.era_days + view_alignment_spec(view),
                d.year as int,
                d.month as int,
                d.day as int,
            ),
    {
        let shifted: u128 = if !zone_in_unix {
            let tz: u128 = time_zone.to_seconds() as u128;
            if time_zone.sign == Sign::Signed {
                unix_time - tz
            } else {
                unix_time + tz
            }
        } else {
            unix_time
        };

        let (epoch_days, _day_seconds): (u128, u128) = epoch_days_from_seconds(shifted);

        let mut presentation_days: u128 = epoch_days + (UNIX_TIME_START_AFTER_DAY + 1);

        if view == CalendarView::Julian {
            presentation_days += JULIAN_BCE_DAYS_FIRST_YEAR;
        }

        let (year, mut day_of_year): (u64, u16) = year_from_presentation_days(
            view,
            presentation_days,
        );
        let month: Months = month_from_days(view, year, &mut day_of_year);

        if view == CalendarView::Julian {
            presentation_days -= JULIAN_BCE_DAYS_FIRST_YEAR;
        }

        Date {
            day: day_of_year as u8,
            month: month.index(),
            year,
            time_zone,
            unix_time: shifted,
            era_days: presentation_days,
            view,
        }
    }

    /// Public entry over `of`: the civil date of a linear second count.
    pub fn from(view: CalendarView, unix_time: u128, time_zone: Zone, zone_in_unix: bool) -> (d:
        Date)
        requires
            !zone_in_unix && time_zone.sign == Sign::Signed ==> unix_time >= zone_seconds(
                time_zone,
            ),
            !zone_in_unix && time_zone.sign == Sign::Unsigned ==> unix_time + zone_seconds(
                time_zone,
            ) <= u128::MAX,
            zone_applied_spec(unix_time as int, time_zone, zone_in_unix) / 86400 + 719163
                + view_alignment_spec(view) <= days_before_year_spec(view, u64::MAX as int + 1),
        ensures
            d.view == view,
            d.time_zone == time_zone,
            d.unix_time == zone_applied_spec(unix_time as int, time_zone, zone_in_unix),
            d.era_days == zone_applied_spec(unix_time as int, time_zone, zone_in_unix) / 86400
                + 719163,
            civil_decomposition_spec(
                view,
                d.era_days + view_alignment_spec(view),
                d.year as int,
                d.month as int,
                d.day as int,
            ),
    {
        Date::of(view, unix_time, time_zone, zone_in_unix)
    }

    /// The month field as a `Months` value; a zero month reads as December.
    pub fn month(&self) -> (r: Months)
        requires
            self.month <= 12,
        ensures
            r == month_of_index_spec(self.month as int),
    {
        Months::from(self.month)
    }
}

} // verus!
