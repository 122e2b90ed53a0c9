use vstd::prelude::*;

use crate::calendar::CalendarView;

verus! {

pub const DAYS_IN_WEEK: u8 = 7;

/// Shift that aligns each view's era-day zero to the weekday cycle:
/// era day `n` falls on the weekday with cyclic index
/// `(n + shift) % 7` (0 read as Sunday). The Julian presentation runs
/// five places ahead of the Gregorian and Solar ones.
pub open spec fn week_shift_spec(view: CalendarView) -> int {
    match view {
        CalendarView::Julian => 5,
        CalendarView::Gregorian => 0,
        CalendarView::Solar => 0,
    }
}

/// The shift of `view`'s era-day zero within the weekday cycle.
pub fn week_shift(view: CalendarView) -> (r: u8)
    ensures
        r == week_shift_spec(view),
{
    match view {
        CalendarView::Julian => 5,
        CalendarView::Gregorian => 0,
        CalendarView::Solar => 0,
    }
}

/// The days of the week, Monday first.
#[derive(Debug, Clone, Copy, PartialEq, Eq, Structural)]
pub enum Week {
    Monday,
    Tuesday,
    Wednesday,
    Thursday,
    Friday,
    Saturday,
    Sunday,
}

/// One-based index of a weekday, Monday being 1 and Sunday 7.
pub open spec fn week_index_spec(day: Week) -> int {
    match day {
        Week::Monday => 1,
        Week::Tuesday => 2,
        Week::Wednesday => 3,
        Week::Thursday => 4,
        Week::Friday => 5,
        Week::Saturday => 6,
        Week::Sunday => 7,
    }
}

/// The weekday at cyclic index `index`: 1 through 7 name Monday through
/// Sunday, and 0 is an alias for Sunday.
pub open spec fn week_of_index_spec(index: int) -> Week {
    if index == 1 {
        Week::Monday
    } else if index == 2 {
        Week::Tuesday
    } else if index == 3 {
        Week::Wednesday
    } else if index == 4 {
        Week::Thursday
    } else if index == 5 {
        Week::Friday
    } else if index == 6 {
        Week::Saturday
    } else {
        Week::Sunday
    }
}

impl Week {
    /// One-based index of the weekday, Monday being 1.
    pub fn index(&self) -> (r: u8)
        ensures
            r == week_index_spec(*self),
            1 <= r <= 7,
    {
        match self {
            Week::Monday => 1,
            Week::Tuesday => 2,
            Week::Wednesday => 3,
            Week::Thursday => 4,
            Week::Friday => 5,
            Week::Saturday => 6,
            Week::Sunday => 7,
        }
    }

    /// The weekday at one-based index `week_day`; 0 is accepted as an alias
    /// for Sunday. Indices above 7 name no weekday.
    pub fn from(week_day: u8) -> (r: Week)
        requires
            week_day <= 7,
        ensures
            r == week_of_index_spec(week_day as int),
            week_day >= 1 ==> week_index_spec(r) == week_day,
            week_day == 0 ==> r == Week::Sunday,
    {
        match week_day {
            1 => Week::Monday,
            2 => Week::Tuesday,
            3 => Week::Wednesday,
            4 => Week::Thursday,
            5 => Week::Friday,
            6 => Week::Saturday,
            _ => Week::Sunday,
        }
    }

    /// English name of the weekday, from the static table.
    pub fn name(&self) -> (r: &'static str)
        ensures
            r@ == match *self {
                Week::Monday => "Monday"@,
                Week::Tuesday => "Tuesday"@,
                Week::Wednesday => "Wednesday"@,
                Week::Thursday => "Thursday"@,
                Week::Friday => "Friday"@,
                Week::Saturday => "Saturday"@,
                Week::Sunday => "Sunday"@,
            },
    {
        match self {
            Week::Monday => "Monday",
            Week::Tuesday => "Tuesday",
            Week::Wednesday => "Wednesday",
            Week::Thursday => "Thursday",
            Week::Friday => "Friday",
            Week::Saturday => "Saturday",
            Week::Sunday => "Sunday",
        }
    }

    /// The weekday `n` days after this one.
    pub fn next_nth(&self, n: u128) -> (r: Week)
        ensures
            week_index_spec(r) == (week_index_spec(*self) - 1 + n) % 7 + 1,
    {
        let base: u128 = (self.index() - 1) as u128;
        let idx: u128 = (base + n % 7) % 7;
        proof {
            let b = week_index_spec(*self) - 1;
            assert((b + n % 7) % 7 == (b + n) % 7) by {
                vstd::arithmetic::div_mod::lemma_add_mod_noop(b, n as int, 7);
                vstd::arithmetic::div_mod::lemma_mod_twice(n as int, 7);
                vstd::arithmetic::div_mod::lemma_mod_bound(b, 7);
                vstd::arithmetic::div_mod::lemma_mod_twice(b, 7);
                assert(b % 7 == b) by {
                    vstd::arithmetic::div_mod::lemma_small_mod(b as nat, 7);
                }
            }
        }
        Week::from((idx + 1) as u8)
    }
}

} // verus!
