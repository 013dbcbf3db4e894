//! Calendar and clock: what a completed timestamp means as a date and time
//! of day, and which instant that is in the local time zone.

use crate::error::TimeError;
use crate::stamp::{check_shape, complete_stamp, completed_stamp, stamp_shape};
use chrono::{Datelike, TimeZone, Timelike};
use vstd::prelude::*;

verus! {

/// A date and a time of day on the calendar, without a time zone.
#[derive(Debug, Clone, Copy, PartialEq, Eq, Structural)]
pub struct CivilTime {
    pub year: i32,
    pub month: u32,
    pub day: u32,
    pub hour: u32,
    pub minute: u32,
    pub second: u32,
}

/// A point in time: seconds since the start of 1970 in UTC, and the
/// nanoseconds into that second.
#[derive(Debug, Clone, Copy, PartialEq, Eq, Structural)]
pub struct Timestamp {
    pub seconds: i64,
    pub nanos: u32,
}

/// What `chrono::NaiveDateTime::parse_from_str` makes of a text under a
/// format: the date and time it reads, or nothing where it refuses the text.
pub uninterp spec fn naive_date_time(text: Seq<char>, format: Seq<char>) -> Option<CivilTime>;

/// The format of a completed timestamp: year, month, day, hour, minute.
pub open spec fn stamp_format() -> Seq<char> {
    "%Y%m%d%H%M"@
}

/// The date and time that a timestamp names in a given current year: the
/// shape rules first, then whatever `chrono` reads from the completed
/// digits; a text that it refuses has an invalid format.
pub open spec fn civil_time(stamp: Seq<char>, current_year: int) -> Result<CivilTime, TimeError> {
    match completed_stamp(stamp, current_year) {
        Err(e) => Err(e),
        Ok(text) => match naive_date_time(text, stamp_format()) {
            Some(civil) => Ok(civil),
            None => Err(TimeError::InvalidTimestampFormat),
        },
    }
}

/// Calls `chrono::NaiveDateTime::parse_from_str` and hands out the fields of
/// what it read. Trusted: that the result depends on the text and the format
/// alone, which is all that the name `naive_date_time` claims.
#[verifier::external_body]
fn parse_naive(text: &str, format: &str) -> (parsed: Option<CivilTime>)
    ensures
        parsed == naive_date_time(text@, format@),
{
    match chrono::NaiveDateTime::parse_from_str(text, format) {
        Ok(naive) => Some(CivilTime {
            year: naive.year(),
            month: naive.month(),
            day: naive.day(),
            hour: naive.hour(),
            minute: naive.minute(),
            second: naive.second(),
        }),
        Err(_) => None,
    }
}

/// Calls `chrono::TimeZone::with_ymd_and_hms` on `chrono::Local` and hands
/// out the one instant that the local date and time maps to, or nothing
/// where there is none or more than one. Which instant, and whether there
/// is one, depends on the time zone of this machine, and nothing is claimed
/// of it. Trusted: that the instant falls on a whole second, since `chrono`
/// builds the time of day from hour, minute and second with no fraction,
/// and carries the fraction through the time zone unchanged.
#[verifier::external_body]
pub(crate) fn local_instant(civil: CivilTime) -> (instant: Option<Timestamp>)
    ensures
        instant matches Some(at) ==> at.nanos == 0,
{
    let CivilTime { year, month, day, hour, minute, second } = civil;
    match chrono::Local.with_ymd_and_hms(year, month, day, hour, minute, second).single() {
        Some(found) => Some(
            Timestamp { seconds: found.timestamp(), nanos: found.timestamp_subsec_nanos() },
        ),
        None => None,
    }
}

/// The date and time that was read from the completed digits, or the
/// refusal where they name none: such a timestamp has an invalid format.
pub fn valid_date_time(parsed: Option<CivilTime>) -> (read: Result<CivilTime, TimeError>)
    ensures
        read == match parsed {
            Some(civil) => Ok::<CivilTime, TimeError>(civil),
            None => Err(TimeError::InvalidTimestampFormat),
        },
{
    match parsed {
        Some(civil) => Ok(civil),
        None => Err(TimeError::InvalidTimestampFormat),
    }
}

/// Reads a timestamp as a date and time of day, given the current year.
pub fn read_stamp(stamp: &str, current_year: i32) -> (read: Result<CivilTime, TimeError>)
    ensures
        read == civil_time(stamp@, current_year as int),
{
    match complete_stamp(stamp, current_year) {
        Err(e) => Err(e),
        Ok(text) => valid_date_time(parse_naive(text.as_str(), "%Y%m%d%H%M")),
    }
}

/// The instant of a local date and time, where the time zone gives exactly
/// one; else the local time is ambiguous or does not exist.
pub fn single_instant(found: Option<Timestamp>) -> (instant: Result<Timestamp, TimeError>)
    ensures
        instant == match found {
            Some(at) => Ok::<Timestamp, TimeError>(at),
            None => Err(TimeError::AmbiguousOrInvalidLocalTime),
        },
{
    match found {
        Some(at) => Ok(at),
        None => Err(TimeError::AmbiguousOrInvalidLocalTime),
    }
}

/// Whether the timestamp is one that is completed from the current year:
/// it has the right shape, and fewer than 12 digits.
pub open spec fn needs_year(stamp: Seq<char>) -> bool {
    stamp_shape(stamp) is Ok && stamp.len() != 12
}

/// A timestamp that does not need the current year names the same date and
/// time, or is refused alike, whatever the year is.
pub proof fn lemma_year_plays_no_part(stamp: Seq<char>, one: int, other: int)
    requires
        !needs_year(stamp),
    ensures
        civil_time(stamp, one) == civil_time(stamp, other),
{
}

/// Whether the timestamp is one that is completed from the current year.
pub fn wants_year(stamp: &str) -> (wanted: bool)
    ensures
        wanted == needs_year(stamp@),
{
    match check_shape(stamp) {
        Ok(_) => stamp.unicode_len() != 12,
        Err(_) => false,
    }
}

/// What resolving a timestamp in a given current year may come to,
/// whatever the time zone of the machine is.
///
/// A timestamp that names no date and time is refused with the error that
/// says why. One that names a date and time gives an instant on a whole
/// second, or is refused as ambiguous where the time zone has no single
/// instant for it.
pub open spec fn stamp_outcome(
    stamp: Seq<char>,
    current_year: int,
    instant: Result<Timestamp, TimeError>,
) -> bool {
    match civil_time(stamp, current_year) {
        Err(e) => instant == Err::<Timestamp, TimeError>(e),
        Ok(_) => match instant {
            Ok(at) => at.nanos == 0,
            Err(e) => e == TimeError::AmbiguousOrInvalidLocalTime,
        },
    }
}

/// Resolves an explicit timestamp to an instant, in the local time zone of
/// this machine. The current year is handed in: it completes a timestamp of
/// fewer than 12 digits, and plays no part for one of 12.
pub fn parse_timestamp(timestamp: &str, current_year: i32) -> (instant: Result<
    Timestamp,
    TimeError,
>)
    ensures
        stamp_outcome(timestamp@, current_year as int, instant),
{
    match read_stamp(timestamp, current_year) {
        Err(e) => Err(e),
        Ok(civil) => single_instant(local_instant(civil)),
    }
}

/// The nanoseconds in a second.
pub const NANOS_PER_SECOND: u32 = 1_000_000_000;

impl Timestamp {
    /// The instant as nanoseconds since the start of 1970.
    pub open spec fn total_nanos(self) -> int {
        self.seconds * NANOS_PER_SECOND + self.nanos
    }

    /// The instant that lies `seconds` and `nanos` after the start of 1970,
    /// or before it where `before_epoch` says so: the seconds rounded down,
    /// and the nanoseconds into that second. There is none where `nanos`
    /// is a second or more, or where the seconds do not fit.
    pub open spec fn at_offset(before_epoch: bool, seconds: u64, nanos: u32) -> Option<
        Timestamp,
    > {
        if nanos >= NANOS_PER_SECOND {
            None
        } else if !before_epoch {
            if seconds <= i64::MAX {
                Some(Timestamp { seconds: seconds as i64, nanos })
            } else {
                None
            }
        } else if nanos == 0 {
            if seconds <= i64::MAX + 1 {
                Some(Timestamp { seconds: (-(seconds as int)) as i64, nanos: 0 })
            } else {
                None
            }
        } else {
            if seconds <= i64::MAX {
                Some(
                    Timestamp {
                        seconds: (-(seconds as int) - 1) as i64,
                        nanos: (NANOS_PER_SECOND - nanos) as u32,
                    },
                )
            } else {
                None
            }
        }
    }

    /// The instant at a distance from the start of 1970, as a clock or a
    /// file system reports it.
    pub fn from_epoch_offset(before_epoch: bool, seconds: u64, nanos: u32) -> (instant: Option<
        Timestamp,
    >)
        ensures
            instant == Self::at_offset(before_epoch, seconds, nanos),
    {
        if nanos >= NANOS_PER_SECOND {
            None
        } else if !before_epoch {
            if seconds <= 0x7fff_ffff_ffff_ffff {
                Some(Timestamp { seconds: seconds as i64, nanos })
            } else {
                None
            }
        } else if nanos == 0 {
            if seconds <= 0x7fff_ffff_ffff_ffff {
                Some(Timestamp { seconds: -(seconds as i64), nanos: 0 })
            } else if seconds == 0x8000_0000_0000_0000 {
                Some(Timestamp { seconds: i64::MIN, nanos: 0 })
            } else {
                None
            }
        } else {
            if seconds <= 0x7fff_ffff_ffff_fffe {
                Some(Timestamp { seconds: -(seconds as i64) - 1, nanos: NANOS_PER_SECOND - nanos })
            } else if seconds == 0x7fff_ffff_ffff_ffff {
                Some(Timestamp { seconds: i64::MIN, nanos: NANOS_PER_SECOND - nanos })
            } else {
                None
            }
        }
    }
}

/// The instant that `at_offset` gives is the offset itself, counted in
/// nanoseconds and with its sign, and its nanoseconds stay below a second.
pub proof fn lemma_offset_is_kept(before_epoch: bool, seconds: u64, nanos: u32)
    requires
        Timestamp::at_offset(before_epoch, seconds, nanos) is Some,
    ensures
        ({
            let at = Timestamp::at_offset(before_epoch, seconds, nanos)->0;
            let distance = seconds * NANOS_PER_SECOND + nanos;
            &&& at.nanos < NANOS_PER_SECOND
            &&& at.total_nanos() == if before_epoch {
                -distance
            } else {
                distance
            }
        }),
{
}

} // verus!
