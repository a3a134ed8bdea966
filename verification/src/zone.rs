//! Timezone resolution: mapping a wall-clock time in a named zone to the
//! absolute instant it denotes. The zone database lookup is done by the
//! `chrono_tz` and `chrono` crates and is trusted; its result is named by
//! `zone_utc_instant` and everything downstream of it is verified.

use vstd::prelude::*;

use crate::datetime::{wall_clock_valid, WallClock};

verus! {

/// The least instant a zoned wall clock of years `0..=9999` can denote:
/// the local seconds of 0000-01-01T00:00:00 less a whole day of offset.
pub const MIN_ZONED_EPOCH: i64 = -62_167_305_600;

/// The greatest such instant: the local seconds of 9999-12-31T23:59:59
/// plus a whole day of offset.
pub const MAX_ZONED_EPOCH: i64 = 253_402_387_199;

/// The instant, in seconds since the Unix epoch, that the wall clock denotes
/// in the zone of the given name: `None` when the name is not a known zone
/// identifier, or when the wall clock is ambiguous or skipped there (a
/// daylight-saving overlap or gap). A fixed function of its arguments: the
/// zone database is compiled into the crate.
pub uninterp spec fn zone_utc_instant(zone: Seq<char>, w: WallClock) -> Option<i64>;

/// Relies on `chrono_tz`'s zone-name lookup (`str::parse::<Tz>`) and on
/// chrono's `TimeZone::from_local_datetime`: a wall clock that exists
/// unambiguously in the named zone maps to one UTC instant. The bound holds
/// because local seconds of years `0..=9999` lie within
/// `[-62_167_219_200, 253_402_300_799]` and a chrono offset is under one day
/// (`FixedOffset` admits only offsets strictly between `-86_400` and
/// `86_400` seconds).
#[verifier::external_body]
pub(crate) fn zone_epoch_seconds(zone: &str, w: &WallClock) -> (r: Option<i64>)
    requires
        wall_clock_valid(*w),
    ensures
        r == zone_utc_instant(zone@, *w),
        r matches Some(t) ==> MIN_ZONED_EPOCH <= t <= MAX_ZONED_EPOCH,
{
    let tz: chrono_tz::Tz = zone.parse().ok()?;
    let date = chrono::NaiveDate::from_ymd_opt(w.year as i32, w.month, w.day)?;
    let time = chrono::NaiveTime::from_hms_opt(w.hour, w.minute, w.second)?;
    match chrono::TimeZone::from_local_datetime(&tz, &chrono::NaiveDateTime::new(date, time)) {
        chrono::LocalResult::Single(instant) => Some(instant.timestamp()),
        chrono::LocalResult::Ambiguous(_, _) => None,
        chrono::LocalResult::None => None,
    }
}

} // verus!
