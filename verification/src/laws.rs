use vstd::prelude::*;

use crate::calendar::CalendarView;
use crate::codec::{days_before_year_spec, lemma_month_decomposition_unique,
    lemma_year_decomposition_unique, presentation_days_spec, valid_civil_spec};
use crate::convert::{converted_spec, cross_presentation_spec, rebased_era_spec, timer_start_spec};
use crate::date::{civil_decomposition_spec, lemma_civil_decomposition_recomposes,
    lemma_valid_civil_decomposes, view_alignment_spec, Date};
use crate::leap::is_leap_spec;
use crate::months::months_prefix_spec;

verus! {

/// Round trip of the presentation codec: composing a well-formed civil
/// date into its presentation day count and reading that count back
/// reconstructs the date. The hypotheses on `(year2, month2, day2)` are
/// exactly what the year and month decomposition functions ensure of their
/// results, so whatever they return for the composed count is the original
/// date, with the day-of-year being the month prefix plus the day.
pub proof fn lemma_presentation_round_trip(
    view: CalendarView,
    year: int,
    month: int,
    day: int,
    year2: int,
    month2: int,
    day2: int,
)
    requires
        valid_civil_spec(view, year, month, day),
        civil_decomposition_spec(
            view,
            presentation_days_spec(view, year, month, day),
            year2,
            month2,
            day2,
        ),
    ensures
        year2 == year,
        month2 == month,
        day2 == day,
        presentation_days_spec(view, year, month, day) - days_before_year_spec(view, year)
            == months_prefix_spec(is_leap_spec(view, year), month) + day,
{
    let p = presentation_days_spec(view, year, month, day);
    lemma_valid_civil_decomposes(view, year, month, day);
    let leap = is_leap_spec(view, year);
    lemma_year_decomposition_unique(
        view,
        year,
        months_prefix_spec(leap, month) + day,
        year2,
        p - days_before_year_spec(view, year2),
    );
    lemma_month_decomposition_unique(
        leap,
        month,
        day,
        month2,
        day2,
    );
}

/// Cross-view consistency: converting a date from its view to another and
/// back, with the zone offset already inside the linear time so that only
/// the calendars move, reconstructs the original civil fields. The
/// hypotheses on `via` and `back` are exactly what the converters ensure
/// of their results.
pub proof fn lemma_cross_view_round_trip(source: Date, via: Date, back: Date, target: CalendarView)
    requires
        valid_civil_spec(
            source.view,
            source.year as int,
            source.month as int,
            source.day as int,
        ),
        converted_spec(source, via, target, cross_presentation_spec(source, target), true),
        converted_spec(via, back, source.view, cross_presentation_spec(via, source.view), true),
    ensures
        back.view == source.view,
        back.year == source.year,
        back.month == source.month,
        back.day == source.day,
{
    let va = source.view;
    let p0 = presentation_days_spec(va, source.year as int, source.month as int, source.day as int);
    let e2 = cross_presentation_spec(source, target);

    // With the zone inside the linear time the rebasing moves no days.
    assert(rebased_era_spec(
        e2,
        timer_start_spec(target),
        source.unix_time as int,
        source.time_zone,
        true,
    ) == e2);

    // The intermediate date reads the moved count, so its own presentation
    // count is that count again.
    lemma_civil_decomposition_recomposes(
        target,
        e2,
        via.year as int,
        via.month as int,
        via.day as int,
    );
    assert(cross_presentation_spec(via, va) == p0);

    assert(rebased_era_spec(
        p0,
        timer_start_spec(va),
        via.unix_time as int,
        via.time_zone,
        true,
    ) == p0);

    // Reading the original count back under the original view gives the
    // original fields, by decomposition uniqueness.
    lemma_valid_civil_decomposes(va, source.year as int, source.month as int, source.day as int);
    let leap = is_leap_spec(va, source.year as int);
    lemma_year_decomposition_unique(
        va,
        source.year as int,
        months_prefix_spec(leap, source.month as int) + source.day,
        back.year as int,
        p0 - days_before_year_spec(va, back.year as int),
    );
    lemma_month_decomposition_unique(
        leap,
        source.month as int,
        source.day as int,
        back.month as int,
        back.day as int,
    );
}

} // verus!
