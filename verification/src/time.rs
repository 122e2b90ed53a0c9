use vstd::prelude::*;

use crate::date::zone_applied_spec;
use crate::zone::{zone_seconds, Sign, Zone};

verus! {

use vstd::arithmetic::div_mod::{lemma_fundamental_div_mod, lemma_mod_mod};

/// A time of day: the hours, minutes and seconds that the linear second
/// count reads inside its day, next to the zone it was read under. Derived
/// purely from `unix_time` modulo the day length; stateless and recomputed
/// on demand.
#[derive(Debug, Clone, Copy, PartialEq, Eq, Structural)]
pub struct Time {
    pub hours: u8,
    pub minutes: u8,
    pub seconds: u8,
    pub time_zone: Zone,
    pub unix_time: u128,
}

impl Default for Time {
    fn default() -> (t: Time)
        ensures
            t == (Time {
                hours: 0,
                minutes: 0,
                seconds: 0,
                time_zone: Zone { sign: Sign::Unsigned, hours: 0, minutes: 0, seconds: 0 },
                unix_time: 0,
            }),
    {
        Time {
            hours: 0,
            minutes: 0,
            seconds: 0,
            time_zone: Zone { sign: Sign::Unsigned, hours: 0, minutes: 0, seconds: 0 },
            unix_time: 0,
        }
    }
}

impl Time {
    /// Reads the time of day inside the linear second count. When
    /// `timezone_in_unix_time` is false the zone offset is first folded in;
    /// the offset must not pull the count below zero nor push it past the
    /// type's ceiling. The three fields recompose to the count's seconds
    /// inside its day.
    pub fn to_time(unix_time: u128, timezone: Zone, timezone_in_unix_time: bool) -> (t: Time)
        requires
            !timezone_in_unix_time && timezone.sign == Sign::Signed ==> unix_time >= zone_seconds(
                timezone,
            ),
            !timezone_in_unix_time && timezone.sign == Sign::Unsigned ==> unix_time + zone_seconds(
                timezone,
            ) <= u128::MAX,
        ensures
            ({
                let shifted = zone_applied_spec(unix_time as int, timezone, timezone_in_unix_time);
                &&& t.unix_time == shifted
                &&& t.time_zone == timezone
                &&& t.hours == (shifted % 86400) / 3600
                &&& t.minutes == (shifted % 3600) / 60
                &&& t.seconds == shifted % 60
                &&& t.hours * 3600 + t.minutes * 60 + t.seconds == shifted % 86400
                &&& t.hours < 24
                &&& t.minutes < 60
                &&& t.seconds < 60
            }),
    {
        let shifted: u128 = if !timezone_in_unix_time {
            let tz: u128 = timezone.to_seconds() as u128;
            if timezone.sign == Sign::Signed {
                unix_time - tz
            } else {
                unix_time + tz
            }
        } else {
            unix_time
        };

        proof {
            let s = shifted as int;
            lemma_fundamental_div_mod(s % 86400, 3600);
            lemma_fundamental_div_mod(s % 3600, 60);
            assert((s % 86400) % 3600 == s % 3600) by {
                lemma_mod_mod(s, 3600, 24);
            }
            assert((s % 3600) % 60 == s % 60) by {
                lemma_mod_mod(s, 60, 60);
            }
        }

        Time {
            hours: ((shifted % 86400) / 3600) as u8,
            minutes: ((shifted % 3600) / 60) as u8,
            seconds: (shifted % 60) as u8,
            time_zone: timezone,
            unix_time: shifted,
        }
    }

    /// Public entry over `to_time`: the time of day of a linear second
    /// count.
    pub fn from(unix_time: u128, timezone: Zone, timezone_in_unix_time: bool) -> (t: Time)
        requires
            !timezone_in_unix_time && timezone.sign == Sign::Signed ==> unix_time >= zone_seconds(
                timezone,
            ),
            !timezone_in_unix_time && timezone.sign == Sign::Unsigned ==> unix_time + zone_seconds(
                timezone,
            ) <= u128::MAX,
        ensures
            ({
                let shifted = zone_applied_spec(unix_time as int, timezone, timezone_in_unix_time);
                &&& t.unix_time == shifted
                &&& t.time_zone == timezone
                &&& t.hours == (shifted % 86400) / 3600
                &&& t.minutes == (shifted % 3600) / 60
                &&& t.seconds == shifted % 60
                &&& t.hours * 3600 + t.minutes * 60 + t.seconds == shifted % 86400
            }),
    {
        Time::to_time(unix_time, timezone, timezone_in_unix_time)
    }
}

} // verus!
