//! From seconds since the epoch to dates in a time zone.
//!
//! The timestamps of a bodyfile are local times of the zone in which they
//! were taken.  A local time may not exist in its zone, where clocks were
//! set forward, or exist twice, where they were set back.

use chrono::{DateTime, LocalResult, TimeZone};
use chrono_tz::Tz;
use vstd::prelude::*;

verus! {

/// A time zone of the crate chrono-tz: one of the zones of the IANA time
/// zone database, told from the others by its name.
#[verifier::external_type_specification]
#[verifier::external_body]
pub struct ExTz(Tz);

/// The first second that the crate chrono can hold: the beginning of the
/// year -262143.
pub const MIN_TIMESTAMP: i64 = -8_334_601_228_800;

/// The last second that the crate chrono can hold: the end of the year
/// 262142.
pub const MAX_TIMESTAMP: i64 = 8_210_266_876_799;

/// The instants, in seconds since the epoch, at which the clocks of a zone
/// showed a given local time.
#[derive(Clone, Copy, Debug, PartialEq, Eq, Structural)]
pub enum LocalTime {
    /// The clocks never showed this time.
    Never,
    /// The clocks showed this time once.
    Once(i64),
    /// The clocks showed this time twice: the earlier and the later instant.
    Twice(i64, i64),
}

/// The instants at which the clocks of `zone` showed the local time that is
/// `unix_ts` seconds after the local midnight of January 1, 1970, as the
/// crate chrono-tz knows it.
pub uninterp spec fn local_instants(unix_ts: i64, zone: Tz) -> LocalTime;

/// The date of the instant `utc_ts` on the clocks of `zone`, written as
/// RFC 3339 has it, as the crates chrono and chrono-tz give it.
pub uninterp spec fn rfc3339_in_zone(utc_ts: i64, zone: Tz) -> Seq<char>;

/// The timestamp is one that the crate chrono can hold.
pub open spec fn in_range(unix_ts: i64) -> bool {
    MIN_TIMESTAMP <= unix_ts <= MAX_TIMESTAMP
}

/// `TimeZone::from_local_datetime` of the crate chrono, for a zone of the
/// crate chrono-tz: takes `unix_ts`, which `DateTime::from_timestamp` turns
/// into a date and a time of day, as a local time of `zone`, and gives the
/// instants that it stands for, each by `DateTime::timestamp`.  The
/// instants are ones that chrono can hold.  Nothing is looked at but the
/// arguments and the time zone data that chrono-tz is built with.
#[verifier::external_body]
fn instants_of(unix_ts: i64, zone: &Tz) -> (res: LocalTime)
    requires
        in_range(unix_ts),
    ensures
        res == local_instants(unix_ts, *zone),
        res matches LocalTime::Once(t) ==> in_range(t),
        res matches LocalTime::Twice(t, u) ==> in_range(t) && in_range(u),
{
    let local = DateTime::from_timestamp(unix_ts, 0).unwrap().naive_utc();
    match zone.from_local_datetime(&local) {
        LocalResult::None => LocalTime::Never,
        LocalResult::Single(t) => LocalTime::Once(t.timestamp()),
        LocalResult::Ambiguous(t, u) => LocalTime::Twice(t.timestamp(), u.timestamp()),
    }
}

/// `DateTime::to_rfc3339` of the crate chrono, for the instant `utc_ts`,
/// which `DateTime::from_timestamp` turns into a date and
/// `DateTime::with_timezone` moves to the clocks of `zone`.
#[verifier::external_body]
fn rfc3339_of(utc_ts: i64, zone: &Tz) -> (res: String)
    requires
        in_range(utc_ts),
    ensures
        res@ == rfc3339_in_zone(utc_ts, *zone),
{
    DateTime::from_timestamp(utc_ts, 0).unwrap().with_timezone(zone).to_rfc3339()
}

/// The constant `Tz::UTC` of the crate chrono-tz: the zone of universal
/// time.
#[verifier::external_body]
pub(crate) fn utc() -> Tz {
    Tz::UTC
}

/// A local time that the clocks of its zone never showed.
#[derive(Clone, Copy, Debug, PartialEq, Eq, Structural)]
pub struct InvalidDatetime;

impl InvalidDatetime {
    /// The text of the error.
    pub fn to_string(&self) -> (res: String)
        ensures
            res@ == "INVALID DATETIME"@,
    {
        "INVALID DATETIME".to_owned()
    }
}

/// The instant that a local time stands for: the one at which the clocks
/// showed it, the earlier of the two where they showed it twice.
pub open spec fn instant_of(local: LocalTime) -> Option<i64> {
    match local {
        LocalTime::Never => None,
        LocalTime::Once(t) => Some(t),
        LocalTime::Twice(t, _) => Some(t),
    }
}

/// The text for a timestamp `unix_ts` that was taken on the clocks of
/// `src_zone`, to be shown as on the clocks of `dst_zone`: a row of zeros
/// for a timestamp before the epoch, the date where the local time
/// existed, and a note that it did not where it did not.
pub open spec fn date_text(unix_ts: i64, src_zone: Tz, dst_zone: Tz) -> Seq<char> {
    if unix_ts >= 0 {
        match instant_of(local_instants(unix_ts, src_zone)) {
            Some(t) => rfc3339_in_zone(t, dst_zone),
            None => "INVALID DATETIME"@,
        }
    } else {
        "0000-00-00T00:00:00+00:00"@
    }
}

/// Settles on one instant for a local time.
pub fn settle_instant(local: LocalTime) -> (res: Result<i64, InvalidDatetime>)
    ensures
        res is Ok <==> instant_of(local) is Some,
        res matches Ok(t) ==> instant_of(local) == Some(t),
{
    match local {
        LocalTime::Never => Err(InvalidDatetime),
        LocalTime::Once(t) => Ok(t),
        LocalTime::Twice(t1, _t2) => Ok(t1),
    }
}

/// The instant, in seconds since the epoch, that the timestamp `unix_ts`
/// stands for if it was taken on the clocks of `src_zone`.
pub fn normalize_date(unix_ts: i64, src_zone: &Tz) -> (res: Result<i64, InvalidDatetime>)
    requires
        in_range(unix_ts),
    ensures
        res is Ok <==> instant_of(local_instants(unix_ts, *src_zone)) is Some,
        res matches Ok(t) ==> instant_of(local_instants(unix_ts, *src_zone)) == Some(t)
            && in_range(t),
{
    settle_instant(instants_of(unix_ts, src_zone))
}

/// Renders the timestamp `unix_ts`, taken on the clocks of `src_zone`, as
/// a date on the clocks of `dst_zone`.
pub fn format_date(unix_ts: i64, src_zone: &Tz, dst_zone: &Tz) -> (res: String)
    requires
        unix_ts <= MAX_TIMESTAMP,
    ensures
        res@ == date_text(unix_ts, *src_zone, *dst_zone),
{
    if unix_ts >= 0 {
        match normalize_date(unix_ts, src_zone) {
            Ok(t) => rfc3339_of(t, dst_zone),
            Err(e) => e.to_string(),
        }
    } else {
        "0000-00-00T00:00:00+00:00".to_owned()
    }
}

} // verus!

