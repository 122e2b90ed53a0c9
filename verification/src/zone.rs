use vstd::prelude::*;

verus! {

pub const SECONDS_IN_MINUTE: u32 = 60;
pub const SECONDS_IN_HOUR: u32 = 3600;

/// Direction of a UTC offset. `Signed` is an offset behind UTC (subtracted
/// from linear time), `Unsigned` an offset ahead of UTC (added to it). The
/// magnitude is kept separately in `Zone`, so no twos-complement sign
/// extension can corrupt arithmetic at a day boundary.
#[derive(Debug, Clone, Copy, PartialEq, Eq, Structural)]
pub enum Sign {
    Signed,
    Unsigned,
}

impl Default for Sign {
    fn default() -> (s: Sign)
        ensures
            s == Sign::Unsigned,
    {
        Sign::Unsigned
    }
}

/// A UTC offset: a direction plus an hours/minutes/seconds magnitude.
///
/// The fields are not range-checked against a realistic offset bound
/// (such as eighteen hours): an out-of-range magnitude is an unchecked
/// precondition of the callers that rebase day counts, which state exactly
/// how the offset they are given is applied.
#[derive(Debug, Clone, Copy, PartialEq, Eq, Structural)]
pub struct Zone {
    pub sign: Sign,
    pub hours: u8,
    pub minutes: u8,
    pub seconds: u8,
}

/// Magnitude of a zone offset in seconds.
pub open spec fn zone_seconds(zone: Zone) -> int {
    zone.hours * 3600 + zone.minutes * 60 + zone.seconds
}

impl Default for Zone {
    fn default() -> (z: Zone)
        ensures
            z == (Zone { sign: Sign::Unsigned, hours: 0, minutes: 0, seconds: 0 }),
    {
        Zone { sign: Sign::Unsigned, hours: 0, minutes: 0, seconds: 0 }
    }
}

impl Zone {
    /// The offset magnitude in seconds; at most 255 * 3661, so it always
    /// fits a `u32`.
    pub fn to_seconds(&self) -> (r: u32)
        ensures
            r == zone_seconds(*self),
    {
        (self.hours as u32) * SECONDS_IN_HOUR + (self.minutes as u32) * SECONDS_IN_MINUTE
            + (self.seconds as u32)
    }

    /// Splits a magnitude in seconds into hours, minutes and seconds.
    /// The hour count must fit the `u8` field.
    pub fn from_seconds(sign: Sign, seconds: u32) -> (z: Zone)
        requires
            seconds / 3600 <= 255,
        ensures
            z.sign == sign,
            z.hours == seconds as int / 3600,
            z.minutes == (seconds as int % 3600) / 60,
            z.seconds == seconds as int % 60,
            zone_seconds(z) == seconds,
    {
        let z = Zone {
            sign,
            hours: (seconds / SECONDS_IN_HOUR) as u8,
            minutes: ((seconds % SECONDS_IN_HOUR) / SECONDS_IN_MINUTE) as u8,
            seconds: (seconds % SECONDS_IN_MINUTE) as u8,
        };
        proof {
            let s = seconds as int;
            vstd::arithmetic::div_mod::lemma_fundamental_div_mod(s, 3600);
            vstd::arithmetic::div_mod::lemma_fundamental_div_mod(s % 3600, 60);
            assert((s % 3600) % 60 == s % 60) by {
                vstd::arithmetic::div_mod::lemma_mod_mod(s, 60, 60);
                assert(3600 == 60 * 60);
            }
        }
        z
    }
}

} // verus!
