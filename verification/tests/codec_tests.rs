use calendars::calendar::CalendarView;
use calendars::codec::{days_from_presentation_date, year_from_presentation_days, BASE_DAYS_YEAR,
    LEAP_DAYS_YEAR};
use calendars::leap::{is_leap_year, sum_leap_years};

const BASE_MONTH_SUM_DAYS: [u16; 11] = [31, 59, 90, 120, 151, 181, 212, 243, 273, 304, 334];
const LEAP_MONTH_SUM_DAYS: [u16; 11] = [31, 60, 91, 121, 152, 182, 213, 244, 274, 305, 335];

#[test]
fn fast_test_year_from_presentation_days() {
    assert_eq!(year_from_presentation_days(CalendarView::Gregorian, 10), (1, 10));
    assert_eq!(year_from_presentation_days(CalendarView::Gregorian, 100), (1, 100));
    assert_eq!(year_from_presentation_days(CalendarView::Gregorian, 365), (1, 365));

    assert_eq!(year_from_presentation_days(CalendarView::Gregorian, 738885), (2023, 365));
    assert_eq!(year_from_presentation_days(CalendarView::Gregorian, 738886), (2024, 1));
    assert_eq!(year_from_presentation_days(CalendarView::Gregorian, 738967), (2024, 82));

    assert_eq!(year_from_presentation_days(CalendarView::Gregorian, 10000), (28, 139));
    assert_eq!(year_from_presentation_days(CalendarView::Gregorian, 1000000), (2738, 332));
    assert_eq!(year_from_presentation_days(CalendarView::Gregorian, 1000000000), (2737908, 4));
    assert_eq!(
        year_from_presentation_days(CalendarView::Gregorian, 3338750015578004117),
        (9141187062234007, 181)
    );
}

#[test]
fn long_test_year_from_presentation_days() {
    fn old_style(view: CalendarView, presentation_days: u128) -> (u64, u16) {
        let mut year: u64 = 1_u64;
        let mut days: u128 = presentation_days;

        loop {
            let leap_year: bool = is_leap_year(view, year as u128);

            if leap_year && days > LEAP_DAYS_YEAR as u128 {
                days -= LEAP_DAYS_YEAR as u128;
                year += 1_u64;
            } else if !leap_year && days > BASE_DAYS_YEAR as u128 {
                days -= BASE_DAYS_YEAR as u128;
                year += 1_u64;
            } else {
                break;
            }
        }

        (year, days as u16)
    }

    for view in [CalendarView::Solar, CalendarView::Julian, CalendarView::Gregorian] {
        let max_year_to_test: u64 = 20_000_u64;

        for test_year in 1_u64..=max_year_to_test {
            let presentation_days: u128 = days_from_presentation_date(view, test_year, 1, 1);

            assert_eq!(year_from_presentation_days(view, presentation_days), old_style(view, presentation_days));
        }
    }
}

#[test]
fn test_days_from_presentation_date() {
    fn old_style(view: CalendarView, year: u64, month: u8, day: u8) -> u128 {
        let (mut days, leap_year, leap_years): (u128, bool, u128) = (
            day as u128,
            is_leap_year(view, year as u128),
            sum_leap_years(view, year as u128),
        );

        if !leap_year {
            days += (leap_years * LEAP_DAYS_YEAR as u128)
                + (((year as u128 - 1_u128) - leap_years) * BASE_DAYS_YEAR as u128);
        } else {
            days += ((leap_years - 1_u128) * LEAP_DAYS_YEAR as u128)
                + ((year as u128 - leap_years) * BASE_DAYS_YEAR as u128);
        }

        if month > 1_u8 {
            if !leap_year {
                days += BASE_MONTH_SUM_DAYS[(month - 2_u8) as usize] as u128;
            } else {
                days += LEAP_MONTH_SUM_DAYS[(month - 2_u8) as usize] as u128;
            }
        }

        days
    }

    for view in [CalendarView::Solar, CalendarView::Julian, CalendarView::Gregorian] {
        for day in [1_u8, 11_u8, 17_u8, 23_u8, 28_u8] {
            for month in [1_u8, 3_u8, 5_u8, 8_u8, 11_u8] {
                for year in 1..=100_000_u64 {
                    assert_eq!(days_from_presentation_date(view, year, month, day), old_style(view, year, month, day));
                }
            }
        }
    }
}

#[test]
fn test_days_from_presentation_date_euclid() {
    fn euclid_style(view: CalendarView, year: u64, month: u8, day: u8) -> u128 {
        let (mut days, leap_year, leap_years): (u128, bool, u64) = (
            day as u128,
            is_leap_year(view, year as u128),
            sum_leap_years(view, year as u128) as u64,
        );

        let (only_base_years, only_leap_years): (u64, u64);

        if !leap_year {
            (only_base_years, only_leap_years) = ((year - 1_u64) - leap_years, leap_years);
        } else {
            (only_base_years, only_leap_years) = (year - leap_years, leap_years - 1_u64);
        }

        let (divisor_base, divisor_leap): (u64, u64) = (
            10_u64.pow(BASE_DAYS_YEAR.ilog10() + 1_u32),
            10_u64.pow(LEAP_DAYS_YEAR.ilog10() + 1_u32),
        );

        let (right_number_part_base_years, right_number_part_leap_years): (u64, u64) = (
            only_base_years % divisor_base,
            only_leap_years % divisor_leap,
        );

        let (left_number_part_base_years, left_number_part_leap_years): (u64, u64) = (
            (only_base_years - right_number_part_base_years) / divisor_base,
            (only_leap_years - right_number_part_leap_years) / divisor_leap,
        );

        days += (left_number_part_base_years as u128 * BASE_DAYS_YEAR as u128) * divisor_base as u128;
        days += right_number_part_base_years as u128 * BASE_DAYS_YEAR as u128;
        days += (left_number_part_leap_years as u128 * LEAP_DAYS_YEAR as u128) * divisor_leap as u128;
        days += right_number_part_leap_years as u128 * LEAP_DAYS_YEAR as u128;

        if month > 1_u8 {
            if !leap_year {
                days += BASE_MONTH_SUM_DAYS[(month - 2_u8) as usize] as u128;
            } else {
                days += LEAP_MONTH_SUM_DAYS[(month - 2_u8) as usize] as u128;
            }
        }

        days
    }

    for view in [CalendarView::Solar, CalendarView::Julian, CalendarView::Gregorian] {
        for day in [1_u8, 11_u8, 17_u8, 23_u8, 28_u8] {
            for month in [1_u8, 3_u8, 5_u8, 8_u8, 11_u8, 12_u8] {
                for year in 1..=100_000_u64 {
                    assert_eq!(days_from_presentation_date(view, year, month, day), euclid_style(view, year, month, day));
                }
            }
        }
    }
}
