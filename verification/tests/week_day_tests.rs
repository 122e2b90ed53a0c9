use calendars::calendar::CalendarView;
use calendars::codec::{days_from_presentation_date, month_from_days, year_from_presentation_days};
use calendars::date::Date;
use calendars::leap::is_leap_year;
use calendars::months::Months;
use calendars::week::Week;
use calendars::week_day::{RataDie, Xavetar};

const SHIFT_BEFORE_FIRST_PRESENTATION_WEEK_DAY_SOLAR: u8 = 0_u8;
const SHIFT_BEFORE_FIRST_PRESENTATION_WEEK_DAY_JULIAN: u8 = 5_u8;
const SHIFT_BEFORE_FIRST_PRESENTATION_WEEK_DAY_GREGORIAN: u8 = 0_u8;

#[test]
fn test_rata_die_method_from_start_era() {
    let (mut days, mut month, mut year): (u16, u8, u64);

    for (view, shift) in [
        (CalendarView::Solar, SHIFT_BEFORE_FIRST_PRESENTATION_WEEK_DAY_SOLAR),
        (CalendarView::Julian, SHIFT_BEFORE_FIRST_PRESENTATION_WEEK_DAY_JULIAN),
        (CalendarView::Gregorian, SHIFT_BEFORE_FIRST_PRESENTATION_WEEK_DAY_GREGORIAN),
    ] {
        let era_days_to_test: u128 = 500_000_u128;

        for era_day in 1_u128..=era_days_to_test {
            (year, days) = year_from_presentation_days(view, era_day);

            month = month_from_days(view, year, &mut days).index();

            assert_eq!(
                <Date as RataDie>::from(view, year, month, days as u8).index(),
                Week::from(shift).next_nth(era_day).index()
            );
        }
    }
}

#[test]
fn test_rata_die_method_to_end_era() {
    let (mut days, mut month, mut year): (u16, u8, u64);

    for (view, shift) in [
        (CalendarView::Solar, SHIFT_BEFORE_FIRST_PRESENTATION_WEEK_DAY_SOLAR),
        (CalendarView::Julian, SHIFT_BEFORE_FIRST_PRESENTATION_WEEK_DAY_JULIAN),
        (CalendarView::Gregorian, SHIFT_BEFORE_FIRST_PRESENTATION_WEEK_DAY_GREGORIAN),
    ] {
        let (era_days_to_test, max_type_era_day): (u128, u128) = (
            500_000_u128,
            days_from_presentation_date(
                view,
                u64::MAX,
                Months::December.index(),
                Months::December.days(is_leap_year(view, u64::MAX as u128)),
            ),
        );

        for era_day in max_type_era_day - era_days_to_test..=max_type_era_day {
            (year, days) = year_from_presentation_days(view, era_day);

            month = month_from_days(view, year, &mut days).index();

            assert_eq!(
                <Date as RataDie>::from(view, year, month, days as u8).index(),
                Week::from(shift).next_nth(era_day).index()
            );
        }
    }
}

#[test]
fn test_xavetar_method_from_start_era() {
    let (mut days, mut month, mut year): (u16, u8, u64);

    for (view, shift) in [
        (CalendarView::Solar, SHIFT_BEFORE_FIRST_PRESENTATION_WEEK_DAY_SOLAR),
        (CalendarView::Julian, SHIFT_BEFORE_FIRST_PRESENTATION_WEEK_DAY_JULIAN),
        (CalendarView::Gregorian, SHIFT_BEFORE_FIRST_PRESENTATION_WEEK_DAY_GREGORIAN),
    ] {
        let era_days_to_test: u128 = 10_000_000_u128;

        for era_day in 1_u128..=era_days_to_test {
            (year, days) = year_from_presentation_days(view, era_day);

            month = month_from_days(view, year, &mut days).index();

            assert_eq!(
                <Date as Xavetar>::from(view, year, month, days as u8).index(),
                Week::from(shift).next_nth(era_day).index()
            );
        }
    }
}

#[test]
fn test_xavetar_method_to_end_era() {
    let (mut days, mut month, mut year): (u16, u8, u64);

    for (view, shift) in [
        (CalendarView::Solar, SHIFT_BEFORE_FIRST_PRESENTATION_WEEK_DAY_SOLAR),
        (CalendarView::Julian, SHIFT_BEFORE_FIRST_PRESENTATION_WEEK_DAY_JULIAN),
        (CalendarView::Gregorian, SHIFT_BEFORE_FIRST_PRESENTATION_WEEK_DAY_GREGORIAN),
    ] {
        let (era_days_to_test, max_type_era_day): (u128, u128) = (
            10_000_000_u128,
            days_from_presentation_date(
                view,
                u64::MAX,
                Months::December.index(),
                Months::December.days(is_leap_year(view, u64::MAX as u128)),
            ),
        );

        for era_day in max_type_era_day - era_days_to_test..=max_type_era_day {
            (year, days) = year_from_presentation_days(view, era_day);

            month = month_from_days(view, year, &mut days).index();

            assert_eq!(
                <Date as Xavetar>::from(view, year, month, days as u8).index(),
                Week::from(shift).next_nth(era_day).index()
            );
        }
    }
}
