//! Instants and their textual form.
//!
//! An instant is a count of nanoseconds since the Unix epoch, in UTC, held in
//! an `i64`. Every such count is a valid date and time between the years 1677
//! and 2262.

use vstd::prelude::*;

verus! {

/// Nanoseconds since 1970-01-01 00:00:00 UTC.
pub type Instant = i64;

/// The text that `chrono` prints for the UTC date and time lying `instant`
/// nanoseconds after the Unix epoch, such as `2023-01-01 12:00:00 UTC`.
pub uninterp spec fn utc_text(instant: int) -> Seq<char>;

/// Prints an instant the way `chrono::DateTime<Utc>` displays itself.
///
/// Trusted: the body builds the `DateTime<Utc>` with
/// `DateTime::from_timestamp_nanos`, which accepts every `i64`, and returns
/// what its `Display` impl writes. The contract only gives that text a name;
/// the text depends on nothing but the instant.
#[verifier::external_body]
pub(crate) fn display_utc(instant: Instant) -> (text: String)
    ensures
        text@ == utc_text(instant as int),
{
    chrono::DateTime::from_timestamp_nanos(instant).to_string()
}

/// A reading of the system clock: how far the clock stands from the Unix
/// epoch, in whole seconds and the nanoseconds beyond them, and on which side
/// of it.
#[derive(Debug, Clone, Copy, PartialEq, Eq, Structural)]
pub enum ClockReading {
    /// The clock stands at or after the epoch.
    Since { seconds: u64, nanos: u32 },
    /// The clock stands before the epoch.
    Before { seconds: u64, nanos: u32 },
}

/// The instant of a clock reading, where an instant can hold it.
pub open spec fn instant_of(reading: ClockReading) -> Option<Instant> {
    match reading {
        ClockReading::Since { seconds, nanos } => if seconds * 1_000_000_000 + nanos <= i64::MAX {
            Some((seconds * 1_000_000_000 + nanos) as i64)
        } else {
            None
        },
        ClockReading::Before { seconds, nanos } => if seconds * 1_000_000_000 + nanos <= -(
        i64::MIN as int) {
            Some((-(seconds * 1_000_000_000 + nanos)) as i64)
        } else {
            None
        },
    }
}

impl ClockReading {
    /// The instant of the reading, or `None` where the reading lies outside
    /// the years that an instant can hold.
    pub fn instant(self) -> (instant: Option<Instant>)
        ensures
            instant == instant_of(self),
    {
        match self {
            ClockReading::Since { seconds, nanos } => {
                let distance: i128 = seconds as i128 * 1_000_000_000 + nanos as i128;
                if distance <= i64::MAX as i128 {
                    Some(distance as i64)
                } else {
                    None
                }
            },
            ClockReading::Before { seconds, nanos } => {
                let distance: i128 = seconds as i128 * 1_000_000_000 + nanos as i128;
                if distance <= -(i64::MIN as i128) {
                    Some((-distance) as i64)
                } else {
                    None
                }
            },
        }
    }
}

/// Reads the system clock.
///
/// Trusted: the body calls `std::time::SystemTime::now` and measures the
/// reading from `UNIX_EPOCH` with `duration_since`, which gives the distance
/// on either side of the epoch. Nothing is claimed of the reading: two calls
/// may give any two readings.
#[verifier::external_body]
pub(crate) fn read_clock() -> (reading: ClockReading) {
    match std::time::SystemTime::now().duration_since(std::time::UNIX_EPOCH) {
        Ok(since) => ClockReading::Since {
            seconds: since.as_secs(),
            nanos: since.subsec_nanos(),
        },
        Err(before) => ClockReading::Before {
            seconds: before.duration().as_secs(),
            nanos: before.duration().subsec_nanos(),
        },
    }
}

/// The current instant by the system clock, or `None` while the clock stands
/// outside the years that an instant can hold.
pub fn now() -> (reading: Option<Instant>) {
    read_clock().instant()
}

/// The textual form of an instant, as it is stored in execution records.
pub fn format_instant(instant: Instant) -> (text: String)
    ensures
        text@ == utc_text(instant as int),
{
    display_utc(instant)
}

} // verus!
