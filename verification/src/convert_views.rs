use vstd::prelude::*;

use crate::calendar::CalendarView;
use crate::codec::presentation_days_spec;
use crate::convert::{convert_ok_spec, converted_spec, cross_presentation_spec,
    reread_presentation_spec, Converter};
use crate::date::Date;

verus! {

/// Conversion into the Julian presentation.
pub trait Julian: Converter {
    /// Re-bases the date, read under its own view, onto the Julian
    /// presentation. The source date must not fall in the two-day Julian
    /// gap, and the rebased day count must stay on the Julian axis.
    fn to_date(&mut self, timezone_in_unix_time: bool)
        requires
            old(self).date().year >= 1,
            old(self).date().month <= 12,
            old(self).date().view == CalendarView::Julian ==> presentation_days_spec(
                CalendarView::Julian,
                old(self).date().year as int,
                old(self).date().month as int,
                old(self).date().day as int,
            ) > 2,
            convert_ok_spec(
                old(self).date(),
                CalendarView::Julian,
                cross_presentation_spec(old(self).date(), CalendarView::Julian),
                timezone_in_unix_time,
            ),
        ensures
            converted_spec(
                old(self).date(),
                final(self).date(),
                CalendarView::Julian,
                cross_presentation_spec(old(self).date(), CalendarView::Julian),
                timezone_in_unix_time,
            ),
    ;

    /// Rereads the date's civil figures under the Julian rules and rebases
    /// them. The figures must not name the two-day Julian gap.
    fn to_presentation(&mut self, timezone_in_unix_time: bool)
        requires
            old(self).date().year >= 1,
            old(self).date().month <= 12,
            !(old(self).date().year == 1 && old(self).date().month == 1 && old(self).date().day
                <= 2),
            convert_ok_spec(
                old(self).date(),
                CalendarView::Julian,
                reread_presentation_spec(old(self).date(), CalendarView::Julian),
                timezone_in_unix_time,
            ),
        ensures
            converted_spec(
                old(self).date(),
                final(self).date(),
                CalendarView::Julian,
                reread_presentation_spec(old(self).date(), CalendarView::Julian),
                timezone_in_unix_time,
            ),
    ;
}

/// Conversion into the Gregorian presentation.
pub trait Gregorian: Converter {
    /// Re-bases the date, read under its own view, onto the Gregorian
    /// presentation.
    fn to_date(&mut self, timezone_in_unix_time: bool)
        requires
            old(self).date().year >= 1,
            old(self).date().month <= 12,
            old(self).date().view == CalendarView::Julian ==> presentation_days_spec(
                CalendarView::Julian,
                old(self).date().year as int,
                old(self).date().month as int,
                old(self).date().day as int,
            ) > 2,
            convert_ok_spec(
                old(self).date(),
                CalendarView::Gregorian,
                cross_presentation_spec(old(self).date(), CalendarView::Gregorian),
                timezone_in_unix_time,
            ),
        ensures
            converted_spec(
                old(self).date(),
                final(self).date(),
                CalendarView::Gregorian,
                cross_presentation_spec(old(self).date(), CalendarView::Gregorian),
                timezone_in_unix_time,
            ),
    ;

    /// Rereads the date's civil figures under the Gregorian rules and
    /// rebases them.
    fn to_presentation(&mut self, timezone_in_unix_time: bool)
        requires
            old(self).date().year >= 1,
            old(self).date().month <= 12,
            convert_ok_spec(
                old(self).date(),
                CalendarView::Gregorian,
                reread_presentation_spec(old(self).date(), CalendarView::Gregorian),
                timezone_in_unix_time,
            ),
        ensures
            converted_spec(
                old(self).date(),
                final(self).date(),
                CalendarView::Gregorian,
                reread_presentation_spec(old(self).date(), CalendarView::Gregorian),
                timezone_in_unix_time,
            ),
    ;
}

/// Conversion into the Solar presentation.
///
/// The Solar axis is aligned with the Gregorian one at era zero, and both
/// cross-view directions run through the same integer presentation codec:
/// the alignment is an exact integer constant, never a floating-point
/// intermediate.
pub trait Solar: Converter {
    /// Re-bases the date, read under its own view, onto the Solar
    /// presentation.
    fn to_date(&mut self, timezone_in_unix_time: bool)
        requires
            old(self).date().year >= 1,
            old(self).date().month <= 12,
            old(self).date().view == CalendarView::Julian ==> presentation_days_spec(
                CalendarView::Julian,
                old(self).date().year as int,
                old(self).date().month as int,
                old(self).date().day as int,
            ) > 2,
            convert_ok_spec(
                old(self).date(),
                CalendarView::Solar,
                cross_presentation_spec(old(self).date(), CalendarView::Solar),
                timezone_in_unix_time,
            ),
        ensures
            converted_spec(
                old(self).date(),
                final(self).date(),
                CalendarView::Solar,
                cross_presentation_spec(old(self).date(), CalendarView::Solar),
                timezone_in_unix_time,
            ),
    ;

    /// Rereads the date's civil figures under the Solar rules and rebases
    /// them.
    fn to_presentation(&mut self, timezone_in_unix_time: bool)
        requires
            old(self).date().year >= 1,
            old(self).date().month <= 12,
            convert_ok_spec(
                old(self).date(),
                CalendarView::Solar,
                reread_presentation_spec(old(self).date(), CalendarView::Solar),
                timezone_in_unix_time,
            ),
        ensures
            converted_spec(
                old(self).date(),
                final(self).date(),
                CalendarView::Solar,
                reread_presentation_spec(old(self).date(), CalendarView::Solar),
                timezone_in_unix_time,
            ),
    ;
}

impl Julian for Date {
    fn to_date(&mut self, timezone_in_unix_time: bool) {
        self.cross_to(CalendarView::Julian, timezone_in_unix_time);
    }

    fn to_presentation(&mut self, timezone_in_unix_time: bool) {
        self.reread_as(CalendarView::Julian, timezone_in_unix_time);
    }
}

impl Gregorian for Date {
    fn to_date(&mut self, timezone_in_unix_time: bool) {
        self.cross_to(CalendarView::Gregorian, timezone_in_unix_time);
    }

    fn to_presentation(&mut self, timezone_in_unix_time: bool) {
        self.reread_as(CalendarView::Gregorian, timezone_in_unix_time);
    }
}

impl Solar for Date {
    fn to_date(&mut self, timezone_in_unix_time: bool) {
        self.cross_to(CalendarView::Solar, timezone_in_unix_time);
    }

    fn to_presentation(&mut self, timezone_in_unix_time: bool) {
        self.reread_as(CalendarView::Solar, timezone_in_unix_time);
    }
}

} // verus!
