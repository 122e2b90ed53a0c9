use vstd::prelude::*;

verus! {

use vstd::arithmetic::div_mod::{lemma_fundamental_div_mod, lemma_mod_mod};

pub const SECONDS_IN_WEEK: u128 = 604800;

/// A duration since some start, split into weeks, days, hours, minutes and
/// seconds.
#[derive(Debug, Clone, Copy, PartialEq, Eq, Structural)]
pub struct Uptime {
    pub weeks: u128,
    pub days: u8,
    pub hours: u8,
    pub minutes: u8,
    pub seconds: u8,
}

/// The total second count that an `Uptime` value stands for.
pub open spec fn uptime_seconds_spec(u: Uptime) -> int {
    u.weeks * 604800 + u.days * 86400 + u.hours * 3600 + u.minutes * 60 + u.seconds
}

impl Default for Uptime {
    fn default() -> (u: Uptime)
        ensures
            u == (Uptime { weeks: 0, days: 0, hours: 0, minutes: 0, seconds: 0 }),
    {
        Uptime { weeks: 0, days: 0, hours: 0, minutes: 0, seconds: 0 }
    }
}

impl Uptime {
    /// The total second count of the duration. The week count must be small
    /// enough for the total to fit the wide-integer range.
    pub fn to_seconds(&self) -> (r: u128)
        requires
            self.weeks * 604800 + 255 * 86400 + 255 * 3600 + 255 * 60 + 255 <= u128::MAX,
        ensures
            r == uptime_seconds_spec(*self),
    {
        self.weeks * 604800 + (self.days as u128) * 86400 + (self.hours as u128) * 3600
            + (self.minutes as u128) * 60 + (self.seconds as u128)
    }

    /// Splits a second count into whole weeks, then days, hours, minutes
    /// and seconds; the parts recompose to exactly the given count.
    pub fn from_seconds(seconds: u128) -> (u: Uptime)
        ensures
            u.weeks == seconds as int / 604800,
            u.days == (seconds as int % 604800) / 86400,
            u.hours == (seconds as int % 86400) / 3600,
            u.minutes == (seconds as int % 3600) / 60,
            u.seconds == seconds as int % 60,
            uptime_seconds_spec(u) == seconds,
    {
        proof {
            let s = seconds as int;
            lemma_fundamental_div_mod(s, 604800);
            lemma_fundamental_div_mod(s % 604800, 86400);
            lemma_fundamental_div_mod(s % 86400, 3600);
            lemma_fundamental_div_mod(s % 3600, 60);
            assert((s % 604800) % 86400 == s % 86400) by {
                lemma_mod_mod(s, 86400, 7);
            }
            assert((s % 86400) % 3600 == s % 3600) by {
                lemma_mod_mod(s, 3600, 24);
            }
            assert((s % 3600) % 60 == s % 60) by {
                lemma_mod_mod(s, 60, 60);
            }
        }
        Uptime {
            weeks: seconds / 604800,
            days: ((seconds % 604800) / 86400) as u8,
            hours: ((seconds % 86400) / 3600) as u8,
            minutes: ((seconds % 3600) / 60) as u8,
            seconds: (seconds % 60) as u8,
        }
    }
}

} // verus!
