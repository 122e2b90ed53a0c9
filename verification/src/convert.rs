use vstd::prelude::*;

use crate::calendar::CalendarView;
use crate::codec::{days_before_year_spec, days_from_presentation_date, month_from_days,
    presentation_days_spec, year_from_presentation_days};
use crate::date::{civil_decomposition_spec, view_alignment_spec, Date, JULIAN_BCE_DAYS_FIRST_YEAR,
    UNIX_TIME_START_AFTER_DAY};
use crate::tz::{ceil_div_spec, zone_recalc};
use crate::zone::{zone_seconds, Sign, Zone};

verus! {

/// The day count handed to the time rebasing when converting into
/// `target`: the era days before the linear time axis started, counted on
/// `target`'s presentation axis.
pub open spec fn timer_start_spec(target: CalendarView) -> int {
    719162 + view_alignment_spec(target)
}

/// The linear time after a date's day count is rebased onto the time axis:
/// whole days before the count and after the timer start, in seconds, plus
/// the seconds kept from inside the old day, with the zone offset folded in
/// unless it already was. A count at or before the timer start reads as
/// linear time zero.
pub open spec fn rebased_unix_spec(
    era: int,
    start: int,
    old_unix: int,
    zone: Zone,
    zone_in_unix: bool,
) -> int {
    if era <= start {
        0
    } else {
        let base = (era - start - 1) * 86400;
        let ds = old_unix % 86400;
        if zone_in_unix {
            base + ds
        } else if zone.sign == Sign::Signed {
            if zone_seconds(zone) > 0 {
                base - zone_seconds(zone) + ds
            } else {
                base
            }
        } else {
            base + zone_seconds(zone) + ds
        }
    }
}

/// The presentation day count after the zone offset is folded in: it steps
/// backward or forward exactly when the offset carries the time of day
/// across a day boundary, as `zone_recalc` states.
pub open spec fn rebased_era_spec(
    era: int,
    start: int,
    old_unix: int,
    zone: Zone,
    zone_in_unix: bool,
) -> int {
    let ds = old_unix % 86400;
    if era <= start || zone_in_unix {
        era
    } else if zone.sign == Sign::Signed {
        if zone_seconds(zone) > 0 && ds < zone_seconds(zone) {
            era - ceil_div_spec(zone_seconds(zone) - ds, 86400)
        } else {
            era
        }
    } else {
        era + (zone_seconds(zone) + ds) / 86400
    }
}

/// What the time rebasing needs of its inputs: room for the second
/// arithmetic inside the wide-integer range, an offset that does not exceed
/// the rebased linear time, and a day count that does not step below zero.
pub open spec fn fill_time_ok_spec(
    era: int,
    start: int,
    old_unix: int,
    zone: Zone,
    zone_in_unix: bool,
) -> bool {
    era > start ==> {
        let base = (era - start - 1) * 86400;
        let ds = old_unix % 86400;
        let zs = zone_seconds(zone);
        if zone_in_unix {
            base + ds <= u128::MAX
        } else {
            &&& base + zs + ds <= u128::MAX
            &&& zone.sign == Sign::Signed ==> base >= zs
            &&& (zone.sign == Sign::Signed && zs > 0 && ds < zs) ==> era >= ceil_div_spec(
                zs - ds,
                86400,
            )
            &&& zone.sign == Sign::Unsigned ==> era + (zs + ds) / 86400 <= u128::MAX
        }
    }
}

/// What a conversion into `target` needs once the source civil date has
/// been read as the presentation day count `era1`: the time rebasing must
/// be safe, and the rebased day count must stay on `target`'s presentation
/// axis and inside its representable year range.
pub open spec fn convert_ok_spec(d: Date, target: CalendarView, era1: int, zone_in_unix: bool) -> bool {
    let start = timer_start_spec(target);
    let re = rebased_era_spec(era1, start, d.unix_time as int, d.time_zone, zone_in_unix);
    &&& fill_time_ok_spec(era1, start, d.unix_time as int, d.time_zone, zone_in_unix)
    &&& 1 <= re
    &&& view_alignment_spec(target) <= re
    &&& re <= days_before_year_spec(target, u64::MAX as int + 1)
}

/// How a finished conversion relates to the date it started from: the new
/// civil fields decompose the rebased presentation day count under
/// `target`, the stored era days are that count brought back to the era
/// axis, and the linear time is the rebased one.
pub open spec fn converted_spec(
    source: Date,
    converted: Date,
    target: CalendarView,
    era1: int,
    zone_in_unix: bool,
) -> bool {
    let start = timer_start_spec(target);
    let u2 = rebased_unix_spec(era1, start, source.unix_time as int, source.time_zone, zone_in_unix);
    let e2 = rebased_era_spec(era1, start, source.unix_time as int, source.time_zone, zone_in_unix);
    &&& converted.view == target
    &&& converted.time_zone == source.time_zone
    &&& converted.unix_time == u2
    &&& converted.era_days == e2 - view_alignment_spec(target)
    &&& civil_decomposition_spec(
        target,
        e2,
        converted.year as int,
        converted.month as int,
        converted.day as int,
    )
}

/// The two time encodings agree: after any rebasing of a day count past
/// the timer start, the whole days inside the rebased linear time are
/// exactly the rebased day count's distance from the start, whichever way
/// the zone offset moved it. The day count and the linear time are two
/// encodings of one instant.
pub proof fn lemma_time_axis_agreement(
    era: int,
    start: int,
    old_unix: int,
    zone: Zone,
    zone_in_unix: bool,
)
    requires
        era > start,
        old_unix >= 0,
        fill_time_ok_spec(era, start, old_unix, zone, zone_in_unix),
    ensures
        rebased_era_spec(era, start, old_unix, zone, zone_in_unix) == start + 1 + rebased_unix_spec(
            era,
            start,
            old_unix,
            zone,
            zone_in_unix,
        ) / 86400,
{
    let base = (era - start - 1) * 86400;
    let ds = old_unix % 86400;
    let zs = zone_seconds(zone);
    vstd::arithmetic::div_mod::lemma_mod_bound(old_unix, 86400);
    if zone_in_unix {
        vstd::arithmetic::div_mod::lemma_fundamental_div_mod_converse(
            base + ds,
            86400,
            era - start - 1,
            ds,
        );
    } else if zone.sign == Sign::Signed {
        if zs > 0 && ds < zs {
            let c = zs - ds;
            let k = ceil_div_spec(c, 86400);
            vstd::arithmetic::div_mod::lemma_fundamental_div_mod(c + 86399, 86400);
            vstd::arithmetic::div_mod::lemma_mod_bound(c + 86399, 86400);
            assert(base - c == (era - start - 1 - k) * 86400 + (k * 86400 - c));
            assert(era - start - 1 - k >= 0);
            vstd::arithmetic::div_mod::lemma_fundamental_div_mod_converse(
                base - c,
                86400,
                era - start - 1 - k,
                k * 86400 - c,
            );
        } else if zs > 0 {
            vstd::arithmetic::div_mod::lemma_fundamental_div_mod_converse(
                base - zs + ds,
                86400,
                era - start - 1,
                ds - zs,
            );
        } else {
            vstd::arithmetic::div_mod::lemma_fundamental_div_mod_converse(
                base,
                86400,
                era - start - 1,
                0,
            );
        }
    } else {
        let t = zs + ds;
        vstd::arithmetic::div_mod::lemma_fundamental_div_mod(t, 86400);
        vstd::arithmetic::div_mod::lemma_mod_bound(t, 86400);
        assert(base + t == (era - start - 1 + t / 86400) * 86400 + t % 86400);
        vstd::arithmetic::div_mod::lemma_fundamental_div_mod_converse(
            base + t,
            86400,
            era - start - 1 + t / 86400,
            t % 86400,
        );
    }
}

/// The presentation day count that `to_date` reads off a date before
/// converting it into `target`: the date's own presentation count, moved
/// from its view's era axis onto `target`'s.
pub open spec fn cross_presentation_spec(d: Date, target: CalendarView) -> int {
    presentation_days_spec(d.view, d.year as int, d.month as int, d.day as int)
        - view_alignment_spec(d.view) + view_alignment_spec(target)
}

/// The presentation day count that `to_presentation` reads off a date: the
/// same civil figures reinterpreted under `target`'s own rules.
pub open spec fn reread_presentation_spec(d: Date, target: CalendarView) -> int {
    presentation_days_spec(target, d.year as int, d.month as int, d.day as int)
}

/// Conversion steps shared by every calendar view: rebasing a date's civil
/// fields and linear time onto another view's axes.
pub trait Converter: Sized {
    /// The date value the converter works on.
    spec fn date(&self) -> Date;

    /// Decomposes the held presentation day count into civil fields under
    /// `to`, leaving the count and the linear time untouched.
    fn fill_date(&mut self, to: CalendarView)
        requires
            1 <= old(self).date().era_days,
            old(self).date().era_days <= days_before_year_spec(to, u64::MAX as int + 1),
        ensures
            final(self).date().view == to,
            civil_decomposition_spec(
                to,
                old(self).date().era_days as int,
                final(self).date().year as int,
                final(self).date().month as int,
                final(self).date().day as int,
            ),
            final(self).date().era_days == old(self).date().era_days,
            final(self).date().unix_time == old(self).date().unix_time,
            final(self).date().time_zone == old(self).date().time_zone,
            final(self).date().day <= 31,
    ;

    /// Rebases the held day count onto the linear time axis that starts
    /// after day `day_before_timer_start`, keeping the seconds inside the
    /// old day and folding in the zone offset unless it already is inside
    /// the linear time.
    fn fill_time(&mut self, day_before_timer_start: u128, zone_in_unix: bool)
        requires
            fill_time_ok_spec(
                old(self).date().era_days as int,
                day_before_timer_start as int,
                old(self).date().unix_time as int,
                old(self).date().time_zone,
                zone_in_unix,
            ),
        ensures
            final(self).date().unix_time == rebased_unix_spec(
                old(self).date().era_days as int,
                day_before_timer_start as int,
                old(self).date().unix_time as int,
                old(self).date().time_zone,
                zone_in_unix,
            ),
            final(self).date().era_days == rebased_era_spec(
                old(self).date().era_days as int,
                day_before_timer_start as int,
                old(self).date().unix_time as int,
                old(self).date().time_zone,
                zone_in_unix,
            ),
            final(self).date().view == old(self).date().view,
            final(self).date().time_zone == old(self).date().time_zone,
            final(self).date().year == old(self).date().year,
            final(self).date().month == old(self).date().month,
            final(self).date().day == old(self).date().day,
    ;
}

impl Converter for Date {
    open spec fn date(&self) -> Date {
        *self
    }

    fn fill_date(&mut self, to: CalendarView) {
        let (year, mut days): (u64, u16) = year_from_presentation_days(to, self.era_days);
        self.year = year;
        self.month = month_from_days(to, year, &mut days).index();
        self.day = days as u8;
        self.view = to;
    }

    fn fill_time(&mut self, day_before_timer_start: u128, zone_in_unix: bool) {
        if self.era_days > day_before_timer_start {
            let day_seconds: u128 = self.unix_time % 86400;

            self.unix_time = (self.era_days - (day_before_timer_start + 1)) * 86400;

            if !zone_in_unix {
                let timezone: Zone = self.time_zone;
                zone_recalc(timezone, &mut self.unix_time, day_seconds, &mut self.era_days);
            } else {
                self.unix_time += day_seconds;
            }
        } else {
            self.unix_time = 0;
        }
    }
}

impl Date {
    /// Engine of the `to_date` conversions: reads the civil fields under
    /// their own view, moves the count onto `target`'s presentation axis,
    /// rebases the linear time and decomposes under `target`.
    pub(crate) fn cross_to(&mut self, target: CalendarView, timezone_in_unix_time: bool)
        requires
            old(self).year >= 1,
            old(self).month <= 12,
            old(self).view == CalendarView::Julian ==> presentation_days_spec(
                CalendarView::Julian,
                old(self).year as int,
                old(self).month as int,
                old(self).day as int,
            ) > 2,
            convert_ok_spec(
                *old(self),
                target,
                cross_presentation_spec(*old(self), target),
                timezone_in_unix_time,
            ),
        ensures
            converted_spec(
                *old(self),
                *final(self),
                target,
                cross_presentation_spec(*old(self), target),
                timezone_in_unix_time,
            ),
    {
        let p0: u128 = days_from_presentation_date(self.view, self.year, self.month, self.day);

        let axis: u128 = match self.view {
            CalendarView::Julian => p0 - JULIAN_BCE_DAYS_FIRST_YEAR,
            _ => p0,
        };

        self.era_days = match target {
            CalendarView::Julian => axis + JULIAN_BCE_DAYS_FIRST_YEAR,
            _ => axis,
        };

        let start: u128 = match target {
            CalendarView::Julian => UNIX_TIME_START_AFTER_DAY + JULIAN_BCE_DAYS_FIRST_YEAR,
            _ => UNIX_TIME_START_AFTER_DAY,
        };

        self.fill_time(start, timezone_in_unix_time);
        self.fill_date(target);

        if matches!(target, CalendarView::Julian) {
            self.era_days -= JULIAN_BCE_DAYS_FIRST_YEAR;
        }
    }

    /// Engine of the `to_presentation` conversions: rereads the civil
    /// fields under `target`'s own rules, rebases the linear time and
    /// decomposes under `target`.
    pub(crate) fn reread_as(&mut self, target: CalendarView, timezone_in_unix_time: bool)
        requires
            old(self).year >= 1,
            old(self).month <= 12,
            convert_ok_spec(
                *old(self),
                target,
                reread_presentation_spec(*old(self), target),
                timezone_in_unix_time,
            ),
        ensures
            converted_spec(
                *old(self),
                *final(self),
                target,
                reread_presentation_spec(*old(self), target),
                timezone_in_unix_time,
            ),
    {
        self.era_days = days_from_presentation_date(target, self.year, self.month, self.day);

        let start: u128 = match target {
            CalendarView::Julian => UNIX_TIME_START_AFTER_DAY + JULIAN_BCE_DAYS_FIRST_YEAR,
            _ => UNIX_TIME_START_AFTER_DAY,
        };

        self.fill_time(start, timezone_in_unix_time);
        self.fill_date(target);

        if matches!(target, CalendarView::Julian) {
            self.era_days -= JULIAN_BCE_DAYS_FIRST_YEAR;
        }
    }
}

} // verus!
