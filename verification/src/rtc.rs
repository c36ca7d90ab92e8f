//! Real-time-clock arithmetic: BCD decoding of the raw register values and
//! the central-European daylight-saving correction. Reading the clock
//! registers themselves is hardware work and stays outside the library.

use vstd::prelude::*;

verus! {

/// A time of day.
#[derive(Debug, Clone, Copy, PartialEq, Eq, Structural)]
pub struct RtcTime {
    pub seconds: u8,
    pub minutes: u8,
    pub hours: u8,
}

/// The value of a BCD-encoded register byte: low nibble ones, high nibble
/// tens.
pub open spec fn bcd_value(b: u8) -> int {
    (b & 0x0F) + (b / 16) * 10
}

/// The day of the last Sunday of March and of October, by the usual
/// arithmetic approximation over the two-digit year.
pub open spec fn last_sunday_spec(year: u8) -> int {
    31 - ((5 * year / 4 + 4) % 7)
}

/// Whether the date falls into European summer time: April to September
/// always, March from its last Sunday on, October before its last Sunday.
pub open spec fn summer_time_spec(day: u8, month: u8, year: u8) -> bool {
    if month < 3 || month > 10 {
        false
    } else if month > 3 && month < 10 {
        true
    } else if month == 3 {
        day >= last_sunday_spec(year)
    } else {
        day < last_sunday_spec(year)
    }
}

/// Whether the date falls into European summer time.
pub fn is_summer_time(day: u8, month: u8, year: u8) -> (r: bool)
    ensures
        r == summer_time_spec(day, month, year),
{
    if month < 3 || month > 10 {
        return false;
    }
    if month > 3 && month < 10 {
        return true;
    }
    let last_sunday: u8 = 31 - ((5 * (year as u32) / 4 + 4) % 7) as u8;
    if month == 3 {
        day >= last_sunday
    } else {
        day < last_sunday
    }
}

/// The time of day read from the raw BCD register bytes, with the clock
/// moved from UTC to central-European time — two hours ahead in summer,
/// one in winter — wrapping around midnight.
pub open spec fn rtc_convert(
    seconds: u8,
    minutes: u8,
    hours: u8,
    day: u8,
    month: u8,
    year: u8,
) -> RtcTime {
    let s = bcd_value(seconds);
    let m = bcd_value(minutes);
    let h = bcd_value(hours);
    let d = bcd_value(day);
    let mo = bcd_value(month);
    let y = bcd_value(year);
    let offset: int = if summer_time_spec(d as u8, mo as u8, y as u8) {
        2
    } else {
        1
    };
    RtcTime { seconds: s as u8, minutes: m as u8, hours: ((h + offset) % 24) as u8 }
}

/// Decodes one BCD register byte.
pub fn bcd_decode(b: u8) -> (r: u8)
    ensures
        r == bcd_value(b),
        r <= 165,
{
    proof {
        assert(b & 0x0F <= 15) by (bit_vector);
    }
    (b & 0x0F) + (b / 16) * 10
}

/// The time of day from the raw register bytes.
pub fn rtc_time_from_raw(seconds: u8, minutes: u8, hours: u8, day: u8, month: u8, year: u8) -> (r:
    RtcTime)
    ensures
        r == rtc_convert(seconds, minutes, hours, day, month, year),
{
    let s = bcd_decode(seconds);
    let m = bcd_decode(minutes);
    let h = bcd_decode(hours);
    let d = bcd_decode(day);
    let mo = bcd_decode(month);
    let y = bcd_decode(year);
    let offset: u8 = if is_summer_time(d, mo, y) {
        2
    } else {
        1
    };
    RtcTime { seconds: s, minutes: m, hours: (h + offset) % 24 }
}

} // verus!
