use calendars::calendar::CalendarView;
use calendars::codec::{check_date, days_from_presentation_date, epoch_days_from_seconds,
    month_from_days, year_from_presentation_days};
use calendars::convert_views::{Gregorian, Julian, Solar};
use calendars::date::Date;
use calendars::era::era_days_from_date;
use calendars::leap::{is_leap_year, sum_leap_years};
use calendars::months::Months;
use calendars::overhead::{is_overhead_leap_year, is_overhead_year, sum_overhead_leap_years,
    sum_overhead_years};
use calendars::time::Time;
use calendars::tz::zone_recalc;
use calendars::uptime::Uptime;
use calendars::week::Week;
use calendars::week_day::{RataDie, Sakamoto, Xavetar};
use calendars::zone::{Sign, Zone};

fn utc() -> Zone {
    Zone { sign: Sign::Unsigned, hours: 0, minutes: 0, seconds: 0 }
}

#[test]
fn leap_rules_concrete() {
    assert!(is_leap_year(CalendarView::Gregorian, 2000));
    assert!(!is_leap_year(CalendarView::Gregorian, 1900));
    assert!(is_leap_year(CalendarView::Gregorian, 2024));
    assert!(is_leap_year(CalendarView::Julian, 4));
    assert!(is_leap_year(CalendarView::Julian, 1900));
    assert!(!is_leap_year(CalendarView::Solar, 0));
    assert!(is_leap_year(CalendarView::Solar, 16000));
    assert!(!is_leap_year(CalendarView::Solar, 4000));
}

#[test]
fn leap_consistency_into_the_billions() {
    for view in [CalendarView::Julian, CalendarView::Gregorian, CalendarView::Solar] {
        for year in [1_u128, 4, 100, 400, 1900, 2000, 2024, 1_000_000_000, 3_000_000_007] {
            let delta = sum_leap_years(view, year) - sum_leap_years(view, year - 1);
            let expected: u128 = if is_leap_year(view, year) { 1 } else { 0 };
            assert_eq!(delta, expected);
        }
    }
}

#[test]
fn presentation_codec_exact_values() {
    assert_eq!(days_from_presentation_date(CalendarView::Gregorian, 2023, 12, 31), 738885);
    assert_eq!(days_from_presentation_date(CalendarView::Gregorian, 2024, 1, 1), 738886);
    assert_eq!(days_from_presentation_date(CalendarView::Gregorian, 1, 1, 1), 1);
    assert_eq!(days_from_presentation_date(CalendarView::Julian, 1970, 1, 1), 719178);
}

#[test]
fn year_boundary_round_trip() {
    // Last day of 2023 and first day of 2024, through the inverse.
    assert_eq!(year_from_presentation_days(CalendarView::Gregorian, 738885), (2023, 365));
    assert_eq!(year_from_presentation_days(CalendarView::Gregorian, 738886), (2024, 1));

    let mut days: u16 = 365;
    let month = month_from_days(CalendarView::Gregorian, 2023, &mut days);
    assert_eq!((month.index(), days), (12, 31));

    let mut days2: u16 = 60;
    let month2 = month_from_days(CalendarView::Gregorian, 2024, &mut days2);
    assert_eq!((month2.index(), days2), (2, 29));
}

#[test]
fn round_trip_all_views_sample() {
    for view in [CalendarView::Julian, CalendarView::Gregorian, CalendarView::Solar] {
        for year in [1_u64, 4, 100, 1969, 1970, 2024, 99999] {
            for month in 1_u8..=12 {
                let month_len = Months::from(month).days(is_leap_year(view, year as u128));
                for day in [1_u8, 15, month_len] {
                    let p = days_from_presentation_date(view, year, month, day);
                    let (y2, mut doy) = year_from_presentation_days(view, p);
                    let m2 = month_from_days(view, y2, &mut doy);
                    assert_eq!((y2, m2.index(), doy as u8), (year, month, day));
                }
            }
        }
    }
}

#[test]
fn week_day_agreement_concrete() {
    // The leap day of Gregorian 2024 reports the same weekday under every
    // algorithm.
    let rata = <Date as RataDie>::from(CalendarView::Gregorian, 2024, 2, 29);
    let saka = <Date as Sakamoto>::from(CalendarView::Gregorian, 2024, 2, 29);
    let xave = <Date as Xavetar>::from(CalendarView::Gregorian, 2024, 2, 29);
    assert_eq!(rata.index(), saka.index());
    assert_eq!(saka.index(), xave.index());
    assert_eq!(rata.index(), Week::Thursday.index());

    for view in [CalendarView::Julian, CalendarView::Gregorian, CalendarView::Solar] {
        for (year, month, day) in [(1_u64, 3_u8, 1_u8), (4, 2, 29), (1900, 7, 31), (2024, 12, 31)] {
            let r = <Date as RataDie>::from(view, year, month, day);
            let s = <Date as Sakamoto>::from(view, year, month, day);
            let x = <Date as Xavetar>::from(view, year, month, day);
            assert_eq!(r.index(), s.index());
            assert_eq!(s.index(), x.index());
        }
    }
}

#[test]
fn week_day_of_dates() {
    let mut date = Date::default();
    (date.year, date.month, date.day, date.view) = (2024, 2, 29, CalendarView::Gregorian);
    assert_eq!(<Date as RataDie>::week_day(&date).name(), "Thursday");
    assert_eq!(<Date as Sakamoto>::week_day(&date).name(), "Thursday");
    assert_eq!(<Date as Xavetar>::week_day(&date).name(), "Thursday");
}

#[test]
fn cross_view_concrete() {
    let mut date = Date::default();
    (date.year, date.month, date.day, date.view) = (2024, 2, 29, CalendarView::Gregorian);

    <Date as Julian>::to_date(&mut date, true);
    assert_eq!(
        (date.year, date.month, date.day, date.view),
        (2024, 2, 16, CalendarView::Julian)
    );

    <Date as Gregorian>::to_date(&mut date, true);
    assert_eq!(
        (date.year, date.month, date.day, date.view),
        (2024, 2, 29, CalendarView::Gregorian)
    );

    <Date as Solar>::to_date(&mut date, true);
    <Date as Gregorian>::to_date(&mut date, true);
    assert_eq!(
        (date.year, date.month, date.day, date.view),
        (2024, 2, 29, CalendarView::Gregorian)
    );
}

#[test]
fn date_from_linear_time() {
    let date = Date::from(CalendarView::Gregorian, 0, utc(), true);
    assert_eq!((date.year, date.month, date.day), (1970, 1, 1));
    assert_eq!(date.era_days, 719163);
    assert_eq!(<Date as RataDie>::week_day(&date).name(), "Thursday");

    let julian = Date::from(CalendarView::Julian, 0, utc(), true);
    assert_eq!((julian.year, julian.month, julian.day), (1969, 12, 19));
    assert_eq!(julian.era_days, 719163);
    assert_eq!(julian.month().name(), "December");

    // One leap day later in 2024, with the zone folded in beforehand.
    let seconds_2024_02_29: u128 = (738945 - 719163) * 86400 + 3600;
    let leap_day = Date::from(CalendarView::Gregorian, seconds_2024_02_29, utc(), false);
    assert_eq!((leap_day.year, leap_day.month, leap_day.day), (2024, 2, 29));
}

#[test]
fn zone_rebasing_forward() {
    // An ahead-of-UTC offset of three hours crossing the day boundary:
    // the era day steps forward by exactly the overflowed day, never more.
    let zone = Zone { sign: Sign::Unsigned, hours: 3, minutes: 0, seconds: 0 };
    let mut unix_time: u128 = 1000 * 86400;
    let mut era_days: u128 = 719163 + 1000;
    zone_recalc(zone, &mut unix_time, 82800, &mut era_days);
    assert_eq!(era_days, 719163 + 1000 + 1);
    assert_eq!(unix_time, 1000 * 86400 + 10800 + 82800);

    // The same offset with room left inside the day moves no day.
    let mut unix_time2: u128 = 1000 * 86400;
    let mut era_days2: u128 = 719163 + 1000;
    zone_recalc(zone, &mut unix_time2, 3600, &mut era_days2);
    assert_eq!(era_days2, 719163 + 1000);
    assert_eq!(unix_time2, 1000 * 86400 + 10800 + 3600);
}

#[test]
fn zone_rebasing_backward() {
    // A behind-UTC offset larger than the seconds already inside the day
    // steps the era day back by one.
    let zone = Zone { sign: Sign::Signed, hours: 1, minutes: 0, seconds: 0 };
    let mut unix_time: u128 = 1000 * 86400;
    let mut era_days: u128 = 719163 + 1000;
    zone_recalc(zone, &mut unix_time, 1800, &mut era_days);
    assert_eq!(era_days, 719163 + 1000 - 1);
    assert_eq!(unix_time, 1000 * 86400 - 3600 + 1800);

    // With enough seconds inside the day the era day stands.
    let mut unix_time2: u128 = 1000 * 86400;
    let mut era_days2: u128 = 719163 + 1000;
    zone_recalc(zone, &mut unix_time2, 7200, &mut era_days2);
    assert_eq!(era_days2, 719163 + 1000);
    assert_eq!(unix_time2, 1000 * 86400 - 3600 + 7200);
}

#[test]
fn representability_checks() {
    // The two-day Julian gap is rejected; the day after it is not.
    assert!(!check_date(CalendarView::Julian, 1, 1, 1));
    assert!(!check_date(CalendarView::Julian, 1, 1, 2));
    assert!(check_date(CalendarView::Julian, 1, 1, 3));
    assert!(check_date(CalendarView::Gregorian, 1, 1, 1));

    // Shape violations.
    assert!(!check_date(CalendarView::Gregorian, 0, 1, 1));
    assert!(!check_date(CalendarView::Gregorian, 2023, 0, 1));
    assert!(!check_date(CalendarView::Gregorian, 2023, 13, 1));
    assert!(!check_date(CalendarView::Gregorian, 2023, 1, 0));
    assert!(!check_date(CalendarView::Gregorian, 2023, 2, 29));
    assert!(check_date(CalendarView::Gregorian, 2024, 2, 29));
    assert!(!check_date(CalendarView::Gregorian, 2024, 2, 30));
}

#[test]
fn solar_overhead_accounting() {
    assert!(is_overhead_year(CalendarView::Solar, 4000));
    assert!(is_overhead_year(CalendarView::Solar, 8000));
    assert!(!is_overhead_year(CalendarView::Solar, 4001));

    assert_eq!(sum_overhead_years(CalendarView::Solar, 100000), 31);
    assert_eq!(sum_overhead_years(CalendarView::Solar, 3999), 1);
    assert_eq!(sum_overhead_years(CalendarView::Solar, 3225), 0);

    assert!(!is_overhead_leap_year(CalendarView::Solar, 4000));
    assert!(is_overhead_leap_year(CalendarView::Solar, 16000));
    assert_eq!(sum_overhead_leap_years(CalendarView::Solar, 5), 1);

    // Before the first correction the era count is the presentation count;
    // after one completed correction it runs one day behind.
    assert_eq!(
        era_days_from_date(CalendarView::Solar, 100, 6, 15),
        days_from_presentation_date(CalendarView::Solar, 100, 6, 15)
    );
    assert_eq!(
        era_days_from_date(CalendarView::Solar, 5000, 1, 1),
        days_from_presentation_date(CalendarView::Solar, 5000, 1, 1) - 1
    );
    assert_eq!(era_days_from_date(CalendarView::Solar, 5000, 1, 1), 1825845);

    // For the other views both counts coincide everywhere.
    assert_eq!(
        era_days_from_date(CalendarView::Gregorian, 2024, 2, 29),
        days_from_presentation_date(CalendarView::Gregorian, 2024, 2, 29)
    );
    assert_eq!(
        era_days_from_date(CalendarView::Julian, 1969, 12, 19),
        days_from_presentation_date(CalendarView::Julian, 1969, 12, 19)
    );
}

#[test]
fn epoch_day_split() {
    assert_eq!(epoch_days_from_seconds(0), (0, 0));
    assert_eq!(epoch_days_from_seconds(86399), (0, 86399));
    assert_eq!(epoch_days_from_seconds(86400), (1, 0));
    assert_eq!(epoch_days_from_seconds(2 * 86400 + 5), (2, 5));
}

#[test]
fn time_of_day_fields() {
    let time = Time::from(12345, utc(), true);
    assert_eq!((time.hours, time.minutes, time.seconds), (3, 25, 45));
    assert_eq!(time.unix_time, 12345);

    let zone = Zone { sign: Sign::Unsigned, hours: 3, minutes: 0, seconds: 0 };
    let shifted = Time::from(12345, zone, false);
    assert_eq!((shifted.hours, shifted.minutes, shifted.seconds), (6, 25, 45));
    assert_eq!(shifted.unix_time, 12345 + 10800);

    let behind = Zone { sign: Sign::Signed, hours: 1, minutes: 0, seconds: 0 };
    let earlier = Time::to_time(12345, behind, false);
    assert_eq!((earlier.hours, earlier.minutes, earlier.seconds), (2, 25, 45));
}

#[test]
fn uptime_round_trip() {
    let uptime = Uptime::from_seconds(1000000);
    assert_eq!(
        (uptime.weeks, uptime.days, uptime.hours, uptime.minutes, uptime.seconds),
        (1, 4, 13, 46, 40)
    );
    assert_eq!(uptime.to_seconds(), 1000000);
    assert_eq!(Uptime::from_seconds(0).to_seconds(), 0);
}

#[test]
fn zone_magnitude_split() {
    let zone = Zone::from_seconds(Sign::Unsigned, 45010);
    assert_eq!((zone.hours, zone.minutes, zone.seconds), (12, 30, 10));
    assert_eq!(zone.to_seconds(), 45010);
    assert_eq!(Zone::default().to_seconds(), 0);
}

#[test]
fn month_table_accessors() {
    assert_eq!(Months::from(0).index(), 12);
    assert_eq!(Months::from(2).name(), "February");
    assert_eq!(Months::February.days(false), 28);
    assert_eq!(Months::February.days(true), 29);
    assert_eq!(Months::January.days(true), 31);
    assert_eq!(Months::February.seconds(true), 29 * 86400);
    assert_eq!(Months::December.next().index(), 1);
    assert_eq!(Months::January.previous().index(), 12);
    assert_eq!(Months::June.next().index(), 7);
}

#[test]
fn week_table_accessors() {
    assert_eq!(Week::from(0).name(), "Sunday");
    assert_eq!(Week::from(7).name(), "Sunday");
    assert_eq!(Week::from(1).name(), "Monday");
    assert_eq!(Week::Monday.index(), 1);
    assert_eq!(Week::Sunday.index(), 7);
    assert_eq!(Week::Saturday.next_nth(8).name(), "Sunday");
    assert_eq!(Week::Monday.next_nth(0).name(), "Monday");
}
