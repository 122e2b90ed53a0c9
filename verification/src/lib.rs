//! A calendrical-arithmetic engine: bit-exact conversions between civil
//! dates, era-day counts and linear time under three calendar rule sets
//! (Julian, Gregorian and a tropical Solar approximation), with three
//! independently derived day-of-week algorithms that are proved to agree.

use vstd::prelude::*;

pub mod calendar;
pub mod codec;
pub mod convert;
pub mod convert_views;
pub mod date;
pub mod era;
pub mod laws;
pub mod leap;
pub mod months;
pub mod overhead;
pub mod time;
pub mod tz;
pub mod uptime;
pub mod week;
pub mod week_day;
pub mod zone;

verus! {

} // verus!
