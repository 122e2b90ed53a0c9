use vstd::prelude::*;

verus! {

/// Selects which leap rule, alignment constant and weekday shift apply to a
/// computation. The variant set is closed: every dispatch in this crate
/// matches on all three variants.
#[derive(Debug, Clone, Copy, PartialEq, Eq, Structural)]
pub enum CalendarView {
    Julian,
    Gregorian,
    Solar,
}

impl Default for CalendarView {
    fn default() -> (v: CalendarView)
        ensures
            v == CalendarView::Julian,
    {
        CalendarView::Julian
    }
}

} // verus!
