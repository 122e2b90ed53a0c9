use vstd::prelude::*;

verus! {

pub const MONTHS_IN_YEAR: u8 = 12;

/// Length in days of month `month` (1 = January .. 12 = December) in an
/// ordinary or leap year. Only February varies with the leap flag.
pub open spec fn month_len_spec(leap: bool, month: int) -> int {
    if month == 2 {
        if leap {
            29
        } else {
            28
        }
    } else if month == 4 || month == 6 || month == 9 || month == 11 {
        30
    } else {
        31
    }
}

/// Days in the months strictly before `month` within one year: the
/// cumulative month table selected by the leap flag. For `month <= 1` it is
/// zero; for `month >= 13` it is the whole year.
pub open spec fn months_prefix_spec(leap: bool, month: int) -> int {
    let feb: int = if leap {
        29
    } else {
        28
    };
    if month <= 1 {
        0
    } else if month == 2 {
        31
    } else if month == 3 {
        31 + feb
    } else if month == 4 {
        62 + feb
    } else if month == 5 {
        92 + feb
    } else if month == 6 {
        123 + feb
    } else if month == 7 {
        153 + feb
    } else if month == 8 {
        184 + feb
    } else if month == 9 {
        215 + feb
    } else if month == 10 {
        245 + feb
    } else if month == 11 {
        276 + feb
    } else if month == 12 {
        306 + feb
    } else {
        337 + feb
    }
}

/// The cumulative table steps by exactly one month length.
pub proof fn lemma_months_prefix_step(leap: bool, month: int)
    requires
        1 <= month <= 12,
    ensures
        months_prefix_spec(leap, month + 1) == months_prefix_spec(leap, month) + month_len_spec(
            leap,
            month,
        ),
{
}

/// Every month lies inside its year: the cumulative table never goes
/// negative, and no month reaches past the year's length.
pub proof fn lemma_months_prefix_bounds(leap: bool, month: int)
    requires
        1 <= month <= 12,
    ensures
        0 <= months_prefix_spec(leap, month),
        months_prefix_spec(leap, month) + month_len_spec(leap, month) <= 365 + if leap {
            1int
        } else {
            0int
        },
{
}

/// Length in days of month `month` of the rare Solar overhead correction
/// year when that year is not leap: one day shorter than an ordinary year,
/// the correction falling where a leap day would stand.
pub open spec fn overhead_month_len_spec(month: int) -> int {
    if month == 2 {
        27
    } else {
        month_len_spec(false, month)
    }
}

/// Cumulative month table of a non-leap Solar overhead correction year.
pub open spec fn overhead_months_prefix_spec(month: int) -> int {
    if month <= 2 {
        months_prefix_spec(false, month)
    } else {
        months_prefix_spec(false, month) - 1
    }
}

/// Cumulative month table of a Solar year, selected by the
/// `(leap, overhead)` pair. An overhead year that is also leap loses exactly
/// its leap day and reads like an ordinary year; an overhead year that is
/// not leap loses one day more.
pub open spec fn solar_months_prefix_spec(leap: bool, overhead: bool, month: int) -> int {
    if !overhead {
        months_prefix_spec(leap, month)
    } else if leap {
        months_prefix_spec(false, month)
    } else {
        overhead_months_prefix_spec(month)
    }
}

/// Exec form of the cumulative month table of a non-leap Solar overhead
/// correction year: days in the months strictly before `month`.
pub fn overhead_months_prefix(month: u8) -> (r: u16)
    requires
        month <= 13,
    ensures
        r == overhead_months_prefix_spec(month as int),
{
    match month {
        0 => 0,
        1 => 0,
        2 => 31,
        3 => 58,
        4 => 89,
        5 => 119,
        6 => 150,
        7 => 180,
        8 => 211,
        9 => 242,
        10 => 272,
        11 => 303,
        12 => 333,
        _ => 364,
    }
}

/// The calendar months, January through December.
#[derive(Debug, Clone, Copy, PartialEq, Eq, Structural)]
pub enum Months {
    January,
    February,
    March,
    April,
    May,
    June,
    July,
    August,
    September,
    October,
    November,
    December,
}

/// One-based position of a month within the year.
pub open spec fn month_index_spec(month: Months) -> int {
    match month {
        Months::January => 1,
        Months::February => 2,
        Months::March => 3,
        Months::April => 4,
        Months::May => 5,
        Months::June => 6,
        Months::July => 7,
        Months::August => 8,
        Months::September => 9,
        Months::October => 10,
        Months::November => 11,
        Months::December => 12,
    }
}

/// The month at one-based position `index`; position zero is read as
/// December, a wraparound convenience, not a distinct state.
pub open spec fn month_of_index_spec(index: int) -> Months {
    if index == 1 {
        Months::January
    } else if index == 2 {
        Months::February
    } else if index == 3 {
        Months::March
    } else if index == 4 {
        Months::April
    } else if index == 5 {
        Months::May
    } else if index == 6 {
        Months::June
    } else if index == 7 {
        Months::July
    } else if index == 8 {
        Months::August
    } else if index == 9 {
        Months::September
    } else if index == 10 {
        Months::October
    } else if index == 11 {
        Months::November
    } else {
        Months::December
    }
}

impl Months {
    /// One-based index of the month, January being 1.
    pub fn index(&self) -> (r: u8)
        ensures
            r == month_index_spec(*self),
            1 <= r <= 12,
    {
        match self {
            Months::January => 1,
            Months::February => 2,
            Months::March => 3,
            Months::April => 4,
            Months::May => 5,
            Months::June => 6,
            Months::July => 7,
            Months::August => 8,
            Months::September => 9,
            Months::October => 10,
            Months::November => 11,
            Months::December => 12,
        }
    }

    /// English name of the month, from the static table.
    pub fn name(&self) -> (r: &'static str)
        ensures
            r@ == match *self {
                Months::January => "January"@,
                Months::February => "February"@,
                Months::March => "March"@,
                Months::April => "April"@,
                Months::May => "May"@,
                Months::June => "June"@,
                Months::July => "July"@,
                Months::August => "August"@,
                Months::September => "September"@,
                Months::October => "October"@,
                Months::November => "November"@,
                Months::December => "December"@,
            },
    {
        match self {
            Months::January => "January",
            Months::February => "February",
            Months::March => "March",
            Months::April => "April",
            Months::May => "May",
            Months::June => "June",
            Months::July => "July",
            Months::August => "August",
            Months::September => "September",
            Months::October => "October",
            Months::November => "November",
            Months::December => "December",
        }
    }

    /// Number of days of the month, depending on whether the year is leap.
    pub fn days(&self, leap: bool) -> (r: u8)
        ensures
            r == month_len_spec(leap, month_index_spec(*self)),
    {
        match self {
            Months::January => 31,
            Months::February => {
                if !leap {
                    28
                } else {
                    29
                }
            },
            Months::March => 31,
            Months::April => 30,
            Months::May => 31,
            Months::June => 30,
            Months::July => 31,
            Months::August => 31,
            Months::September => 30,
            Months::October => 31,
            Months::November => 30,
            Months::December => 31,
        }
    }

    /// Number of seconds of the month: its day count times the seconds of a
    /// day.
    pub fn seconds(&self, leap: bool) -> (r: u128)
        ensures
            r == month_len_spec(leap, month_index_spec(*self)) * 86400,
    {
        (self.days(leap) as u128) * 86400
    }

    /// The month at one-based position `month`; 0 is accepted as an alias
    /// for December. Positions above 12 name no month.
    pub fn from(month: u8) -> (r: Months)
        requires
            month <= 12,
        ensures
            r == month_of_index_spec(month as int),
            month >= 1 ==> month_index_spec(r) == month,
            month == 0 ==> r == Months::December,
    {
        match month {
            1 => Months::January,
            2 => Months::February,
            3 => Months::March,
            4 => Months::April,
            5 => Months::May,
            6 => Months::June,
            7 => Months::July,
            8 => Months::August,
            9 => Months::September,
            10 => Months::October,
            11 => Months::November,
            _ => Months::December,
        }
    }

    /// The month after this one, December wrapping to January.
    pub fn next(&self) -> (r: Months)
        ensures
            month_index_spec(r) == if month_index_spec(*self) == 12 {
                1int
            } else {
                month_index_spec(*self) + 1
            },
    {
        Months::from((self.index() + 1) % MONTHS_IN_YEAR)
    }

    /// The month before this one, January wrapping to December.
    pub fn previous(&self) -> (r: Months)
        ensures
            month_index_spec(r) == if month_index_spec(*self) == 1 {
                12int
            } else {
                month_index_spec(*self) - 1
            },
    {
        Months::from((self.index() - 1) % MONTHS_IN_YEAR)
    }
}

} // verus!
