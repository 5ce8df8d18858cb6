//! Zoned timestamps as plain integers, and the calendar questions that are
//! put to `chrono`.

use vstd::prelude::*;

verus! {

/// Seconds in one hour.
pub const HOUR_SECS: i64 = 3_600;

/// Seconds in one day.
pub const DAY_SECS: i64 = 86_400;

/// The offset used where a caller's offset is not a valid one: UTC+7.
pub const DEFAULT_OFFSET_SECS: i32 = 25_200;

/// Largest magnitude of the seconds of a well-formed timestamp. Every
/// instant that `chrono` can represent lies within it, with room for the
/// hours that the library adds.
pub const MAX_CLOCK_SECS: i64 = 200_000_000_000_000;

/// An instant, in seconds since the Unix epoch, with the UTC offset in
/// seconds east of Greenwich under which it is shown.
#[derive(Debug, Clone, Copy, PartialEq, Eq, Structural)]
pub struct Timestamp {
    pub secs: i64,
    pub offset_secs: i32,
}

/// Whether `secs` is a UTC offset that a zone can have: less than one day
/// either way.
pub open spec fn offset_is_valid(secs: int) -> bool {
    -86_400 < secs < 86_400
}

/// The offset that stands for a caller's offset: itself where it is valid,
/// else UTC+7.
pub open spec fn normalized_offset(secs: int) -> int {
    if offset_is_valid(secs) { secs } else { DEFAULT_OFFSET_SECS as int }
}

impl Timestamp {
    /// The seconds are within `MAX_CLOCK_SECS` and the offset is valid.
    pub open spec fn wf(&self) -> bool {
        &&& -MAX_CLOCK_SECS <= self.secs <= MAX_CLOCK_SECS
        &&& offset_is_valid(self.offset_secs as int)
    }

    /// Seconds since the Unix epoch.
    pub fn timestamp(&self) -> (secs: i64)
        ensures
            secs == self.secs,
    {
        self.secs
    }
}

/// Whether `chrono` can represent the instant `secs` seconds after the
/// Unix epoch: what `DateTime::from_timestamp(secs, 0)` answers with
/// `Some`.
pub uninterp spec fn utc_datetime_exists(secs: i64) -> bool;

/// The instant that has the local date, minute and second of `secs` under
/// `offset_secs` and the local hour `hour`, where `chrono` can form it:
/// what `with_hour` answers for that zoned instant.
pub uninterp spec fn local_hour_replaced(secs: i64, offset_secs: i32, hour: u32) -> Option<i64>;

/// The instant of the same local day as `secs` whose local hour is `hour`.
pub open spec fn with_local_hour(secs: int, offset_secs: int, hour: int) -> int {
    let second_of_day = (secs + offset_secs) % (DAY_SECS as int);
    secs - second_of_day + hour * HOUR_SECS + second_of_day % (HOUR_SECS as int)
}

/// Asks `chrono::FixedOffset::east_opt` whether `secs` is a valid offset.
/// The contract repeats its one test: strictly between minus and plus one
/// day.
#[verifier::external_body]
pub(crate) fn fixed_offset_exists(secs: i32) -> (valid: bool)
    ensures
        valid == offset_is_valid(secs as int),
{
    chrono::FixedOffset::east_opt(secs).is_some()
}

/// Asks `chrono::DateTime::from_timestamp` whether it can represent
/// `secs`. The answer is named; the one fact stated of it is that a
/// representable instant has a day number that fits 32 bits, which bounds
/// its seconds.
#[verifier::external_body]
pub(crate) fn utc_datetime_exists_exec(secs: i64) -> (exists: bool)
    ensures
        exists == utc_datetime_exists(secs),
        exists ==> -190_000_000_000_000 <= secs <= 190_000_000_000_000,
{
    chrono::DateTime::from_timestamp(secs, 0).is_some()
}

/// Forms the zoned instant of `secs` under `offset_secs` and asks
/// `chrono::Timelike::with_hour` to replace its local hour. The answer is
/// named. Stated of it: an hour of 24 or more is refused, and an instant
/// that comes back keeps the local date, minute and second and has the
/// local hour asked for.
#[verifier::external_body]
pub(crate) fn replace_local_hour(secs: i64, offset_secs: i32, hour: u32) -> (replaced: Option<i64>)
    ensures
        replaced == local_hour_replaced(secs, offset_secs, hour),
        hour >= 24 ==> replaced is None,
        replaced matches Some(t) ==> t == with_local_hour(
            secs as int,
            offset_secs as int,
            hour as int,
        ),
{
    let zone = chrono::FixedOffset::east_opt(offset_secs)?;
    let zoned = chrono::DateTime::from_timestamp(secs, 0)?.with_timezone(&zone);
    chrono::Timelike::with_hour(&zoned, hour).map(|moved| moved.timestamp())
}

/// The offset to use for a caller's offset.
pub fn normalize_offset(secs: i32) -> (offset: i32)
    ensures
        offset == normalized_offset(secs as int),
        offset_is_valid(offset as int),
{
    if fixed_offset_exists(secs) {
        secs
    } else {
        DEFAULT_OFFSET_SECS
    }
}

/// The instant that a provider's timestamp stands for: `secs` itself where
/// `chrono` can represent it, else the Unix epoch.
pub open spec fn instant_or_epoch(secs: i64) -> int {
    if utc_datetime_exists(secs) { secs as int } else { 0 }
}

/// Reads a provider's timestamp; one out of range becomes the Unix epoch.
pub fn read_instant(secs: i64) -> (instant: i64)
    ensures
        instant == instant_or_epoch(secs),
        -190_000_000_000_000 <= instant <= 190_000_000_000_000,
{
    if utc_datetime_exists_exec(secs) {
        secs
    } else {
        0
    }
}

} // verus!
