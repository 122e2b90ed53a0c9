use vstd::prelude::*;

use crate::zone::{Sign, Zone, zone_seconds};

verus! {

pub const SECONDS_IN_DAY: u128 = 86400;

/// Quotient rounded towards positive infinity, for a positive divisor.
pub open spec fn ceil_div_spec(a: int, b: int) -> int {
    (a + b - 1) / b
}

/// Days the era count steps back when a behind-UTC offset pulls the time
/// of day below zero: always at least one.
pub open spec fn zone_days_back_spec(zone: Zone, day_seconds: int) -> int {
    ceil_div_spec(zone_seconds(zone) - day_seconds, 86400)
}

/// Days the era count steps forward when an ahead-of-UTC offset pushes the
/// time of day past the day length.
pub open spec fn zone_days_forward_spec(zone: Zone, day_seconds: int) -> int {
    (zone_seconds(zone) + day_seconds) / 86400
}

/// Rebases a linear time and its era-day count under a UTC offset.
///
/// On entry `*unix_time` holds the linear seconds of the start of era day
/// `*era_days`, and `day_seconds` the seconds already elapsed inside that
/// day. A behind-UTC offset is subtracted from the linear time and an
/// ahead-of-UTC offset added, `day_seconds` is folded in, and the era-day
/// count steps backward or forward exactly when the offset carries the time
/// of day across a day boundary. An offset whose magnitude exceeds the
/// linear time, or a step past either end of the day-count range, is a
/// precondition violation, never a wrapped value.
pub fn zone_recalc(timezone: Zone, unix_time: &mut u128, day_seconds: u128, era_days: &mut u128)
    requires
        timezone.sign == Sign::Signed ==> *old(unix_time) >= zone_seconds(timezone),
        (timezone.sign == Sign::Signed && zone_seconds(timezone) > 0 && day_seconds < zone_seconds(
            timezone,
        )) ==> *old(era_days) >= zone_days_back_spec(timezone, day_seconds as int),
        *old(unix_time) + zone_seconds(timezone) + day_seconds <= u128::MAX,
        timezone.sign == Sign::Unsigned ==> *old(era_days) + zone_days_forward_spec(
            timezone,
            day_seconds as int,
        ) <= u128::MAX,
    ensures
        timezone.sign == Sign::Signed && zone_seconds(timezone) > 0 ==> {
            &&& *final(unix_time) == *old(unix_time) - zone_seconds(timezone) + day_seconds
            &&& *final(era_days) == if day_seconds >= zone_seconds(timezone) {
                *old(era_days) as int
            } else {
                *old(era_days) - zone_days_back_spec(timezone, day_seconds as int)
            }
        },
        timezone.sign == Sign::Signed && zone_seconds(timezone) == 0 ==> {
            &&& *final(unix_time) == *old(unix_time)
            &&& *final(era_days) == *old(era_days)
        },
        timezone.sign == Sign::Unsigned ==> {
            &&& *final(unix_time) == *old(unix_time) + zone_seconds(timezone) + day_seconds
            &&& *final(era_days) == *old(era_days) + zone_days_forward_spec(
                timezone,
                day_seconds as int,
            )
        },
{
    let tz_sec: u128 = timezone.to_seconds() as u128;

    if timezone.sign == Sign::Signed && tz_sec > 0 {
        if day_seconds >= tz_sec {
            *unix_time -= tz_sec;
            *unix_time += day_seconds;
        } else {
            *era_days -= ((tz_sec - day_seconds) + 86399) / 86400;
            *unix_time -= tz_sec;
            *unix_time += day_seconds;
        }
    } else if timezone.sign == Sign::Unsigned {
        let total_secs: u128 = tz_sec + day_seconds;
        proof {
            vstd::arithmetic::div_mod::lemma_fundamental_div_mod(total_secs as int, 86400);
        }
        if total_secs < 86400 {
            *unix_time += tz_sec;
            *unix_time += day_seconds;
        } else {
            *era_days += total_secs / 86400;
            *unix_time += tz_sec;
            *unix_time += day_seconds;
        }
    }
}

} // verus!
