//! Instants on the UTC time line, and where a zone's local calendar day
//! begins, by `chrono` and `chrono_tz`.

use crate::zone::Zone;
use vstd::prelude::*;

verus! {

/// 0001-01-01T00:00:00Z in seconds since the Unix epoch.
pub const FIRST_SECOND: i64 = -62_135_596_800;

/// 9999-12-31T23:59:59Z in seconds since the Unix epoch.
pub const LAST_SECOND: i64 = 253_402_300_799;

pub const NANOS_PER_SECOND: u32 = 1_000_000_000;

/// A UTC instant: whole seconds since the Unix epoch and the nanoseconds
/// into that second.
#[derive(Clone, Copy, Debug, PartialEq, Eq, Structural)]
pub struct Timestamp {
    pub secs: i64,
    pub nanos: u32,
}

impl Timestamp {
    /// The instants that calendar arithmetic is done on: the years 1 to 9999,
    /// leap seconds left out.
    pub open spec fn representable(self) -> bool {
        &&& FIRST_SECOND <= self.secs <= LAST_SECOND
        &&& self.nanos < NANOS_PER_SECOND
    }

    pub fn is_representable(&self) -> (r: bool)
        ensures
            r == self.representable(),
    {
        FIRST_SECOND <= self.secs && self.secs <= LAST_SECOND && self.nanos < NANOS_PER_SECOND
    }
}

/// The instant, in seconds since the Unix epoch, at which the local calendar
/// day that holds the given instant begins in the named zone: local
/// 00:00:00 of that day. `None` where the zone is unknown, or where its
/// clocks skip that local midnight or show it twice.
pub uninterp spec fn local_day_start(zone: Seq<char>, secs: i64, nanos: u32) -> Option<i64>;

/// Finds the zone by its name, puts the instant into it with
/// `DateTime::<Utc>::with_timezone`, and asks `DateTime::date` and
/// `Date::and_hms_nano_opt(0, 0, 0, 0)` for the midnight that opens its local
/// day; that midnight is handed back by `DateTime::timestamp`.
///
/// Trusted: the result is a function of the zone's name and the instant
/// alone. The range demanded keeps `chrono` clear of the ends of its own
/// calendar, where `date` panics.
#[verifier::external_body]
#[allow(deprecated)]
fn day_start(zone: &str, secs: i64, nanos: u32) -> (r: Option<i64>)
    requires
        FIRST_SECOND <= secs <= LAST_SECOND,
        nanos < NANOS_PER_SECOND,
    ensures
        r == local_day_start(zone@, secs, nanos),
{
    let tz: chrono_tz::Tz = zone.parse().ok()?;
    let local = chrono::DateTime::from_timestamp(secs, nanos)?.with_timezone(&tz);
    let midnight = local.date().and_hms_nano_opt(0, 0, 0, 0)?;
    Some(midnight.timestamp())
}

/// A span of `secs` seconds and `nanos` nanoseconds more, cut to whole
/// seconds towards zero.
pub open spec fn whole_seconds(secs: int, nanos: int) -> int {
    if secs < 0 && nanos > 0 {
        secs + 1
    } else {
        secs
    }
}

/// The whole seconds from the full second `start` to `at`, where the span
/// between the two second counts fits 64 bits.
pub open spec fn elapsed(start: i64, at: Timestamp) -> Option<i64> {
    let span = at.secs - start;
    if i64::MIN <= span <= i64::MAX {
        Some(whole_seconds(span, at.nanos as int) as i64)
    } else {
        None
    }
}

/// The scoring key of a bet placed at `at` by a player of `zone`: the whole
/// seconds since that player's local day began.
pub open spec fn day_offset(zone: Seq<char>, at: Timestamp) -> Option<i64> {
    if at.representable() {
        match local_day_start(zone, at.secs, at.nanos) {
            Some(start) => elapsed(start, at),
            None => None,
        }
    } else {
        None
    }
}

/// Whole seconds elapsed from the full second `start` to `at`.
pub fn elapsed_since(start: i64, at: Timestamp) -> (r: Option<i64>)
    ensures
        r == elapsed(start, at),
{
    match at.secs.checked_sub(start) {
        Some(span) => {
            if span < 0 && at.nanos > 0 {
                Some(span + 1)
            } else {
                Some(span)
            }
        },
        None => None,
    }
}

/// The local-day offset of an instant in a zone.
pub fn local_day_offset(zone: &Zone, at: Timestamp) -> (r: Option<i64>)
    ensures
        r == day_offset(zone@, at),
{
    if !at.is_representable() {
        return None;
    }
    match day_start(zone.name(), at.secs, at.nanos) {
        Some(start) => elapsed_since(start, at),
        None => None,
    }
}

} // verus!
